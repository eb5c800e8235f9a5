use vstd::prelude::*;
use crate::account::AccountId;

verus! {

/// Notification that balance moved. `from == None` marks a mint origin,
/// `to == None` marks a burn destination.
#[derive(Clone, Copy, Debug, PartialEq, Eq)]
pub struct Transfer {
    pub from: Option<AccountId>,
    pub to: Option<AccountId>,
    pub value: u128,
}

/// Notification that `owner` set the allowance of `spender` to `value`.
#[derive(Clone, Copy, Debug, PartialEq, Eq)]
pub struct Approval {
    pub owner: AccountId,
    pub spender: AccountId,
    pub value: u128,
}

/// One outbound change notification, recorded by the ledger and dispatched by
/// the surrounding environment.
#[derive(Clone, Copy, Debug, PartialEq, Eq)]
pub enum Event {
    Transfer(Transfer),
    Approval(Approval),
}

/// The transfer notification carrying `(from, to, value)`.
pub open spec fn transfer_event(from: Option<AccountId>, to: Option<AccountId>, value: u128) -> Event {
    Event::Transfer(Transfer { from, to, value })
}

/// The approval notification carrying `(owner, spender, value)`.
pub open spec fn approval_event(owner: AccountId, spender: AccountId, value: u128) -> Event {
    Event::Approval(Approval { owner, spender, value })
}

} // verus!
