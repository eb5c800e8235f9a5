use vstd::prelude::*;
use vstd::string::StringExecFns;
use crate::account::AccountId;
use crate::error::PSP22Error;
use crate::event::{Event, Transfer, Approval, transfer_event, approval_event};
use crate::store::{Balances, Allowances, balance_in, balance_sum, allowance_in,
    lemma_balance_le_sum, lemma_two_balances_le_sum};

verus! {

/// The view of an optional display string.
pub open spec fn view_opt(s: Option<String>) -> Option<Seq<char>> {
    match s {
        Some(t) => Some(t@),
        None => None,
    }
}

/// The fungible-token ledger: total supply, per-account balances, delegated
/// spending allowances, display metadata, and the notifications recorded by
/// the mutating operations, to be dispatched by the surrounding environment.
///
/// Balances and allowances are owned and mutated by the ledger alone; other
/// components observe them through the query operations.
pub struct PspCoin {
    /// Total token supply.
    total_supply: u128,
    /// Owner-to-balance table; an absent owner holds zero.
    balances: Balances,
    /// (owner, spender)-to-allowance table; an absent pair holds zero.
    allowances: Allowances,
    /// Token name.
    name: Option<String>,
    /// Token symbol.
    symbol: Option<String>,
    /// Token decimals.
    decimals: u8,
    /// Notifications recorded by mutating operations and not yet dispatched.
    events: Vec<Event>,
}

impl PspCoin {
    /// The recorded total supply.
    pub closed spec fn spec_total_supply(self) -> u128 {
        self.total_supply
    }

    /// The balance of `a`; an account without an entry holds zero.
    pub closed spec fn spec_balance_of(self, a: AccountId) -> u128 {
        balance_in(self.balances@, a)
    }

    /// The allowance `spender` may still withdraw from `owner`.
    pub closed spec fn spec_allowance(self, owner: AccountId, spender: AccountId) -> u128 {
        allowance_in(self.allowances@, owner, spender)
    }

    /// The sum of every stored balance.
    pub closed spec fn spec_balance_total(self) -> int {
        balance_sum(self.balances@)
    }

    /// The token name.
    pub closed spec fn spec_name(self) -> Option<Seq<char>> {
        view_opt(self.name)
    }

    /// The token symbol.
    pub closed spec fn spec_symbol(self) -> Option<Seq<char>> {
        view_opt(self.symbol)
    }

    /// The token decimals.
    pub closed spec fn spec_decimals(self) -> u8 {
        self.decimals
    }

    /// The notifications recorded so far and not yet taken.
    pub closed spec fn spec_events(self) -> Seq<Event> {
        self.events@
    }

    /// Well-formed: each balance table entry names a distinct account and each
    /// allowance table entry a distinct (owner, spender) pair.
    pub closed spec fn wf(self) -> bool {
        self.balances.wf() && self.allowances.wf()
    }

    /// Conservation: the recorded total supply equals the sum of all stored
    /// balances — equally, of all non-zero balances, since a zero amount adds
    /// nothing (`lemma_sum_counts_nonzero_only`). Construction establishes
    /// it, and each mutating operation's contract states how it is kept.
    pub open spec fn conserved(self) -> bool {
        self.spec_total_supply() == self.spec_balance_total()
    }
}

/// The display metadata of `post` is that of `pre`.
pub open spec fn metadata_unchanged(pre: PspCoin, post: PspCoin) -> bool {
    &&& post.spec_name() == pre.spec_name()
    &&& post.spec_symbol() == pre.spec_symbol()
    &&& post.spec_decimals() == pre.spec_decimals()
}

/// Every balance of `post` is that of `pre`, and so is their sum.
pub open spec fn balances_unchanged(pre: PspCoin, post: PspCoin) -> bool {
    &&& forall|a: AccountId| post.spec_balance_of(a) == pre.spec_balance_of(a)
    &&& post.spec_balance_total() == pre.spec_balance_total()
}

/// Every allowance of `post` is that of `pre`.
pub open spec fn allowances_unchanged(pre: PspCoin, post: PspCoin) -> bool {
    forall|o: AccountId, p: AccountId| post.spec_allowance(o, p) == pre.spec_allowance(o, p)
}

/// The effect on balances of a successful move of `value` from `from` to `to`:
/// `from` is debited by `value`, `to` is credited with saturating addition,
/// every other account keeps its balance, and the sum of all balances moves by
/// exactly the net of the two writes. A self-move leaves every balance as it
/// was.
pub open spec fn balances_moved(
    pre: PspCoin,
    post: PspCoin,
    from: AccountId,
    to: AccountId,
    value: u128,
) -> bool {
    &&& if from == to {
        forall|a: AccountId| post.spec_balance_of(a) == pre.spec_balance_of(a)
    } else {
        &&& post.spec_balance_of(from) == pre.spec_balance_of(from) - value
        &&& post.spec_balance_of(to) == pre.spec_balance_of(to).saturating_add(value)
        &&& forall|a: AccountId|
            a != from && a != to ==> post.spec_balance_of(a) == pre.spec_balance_of(a)
    }
    &&& post.spec_balance_total() == pre.spec_balance_total() - pre.spec_balance_of(from)
        - pre.spec_balance_of(to) + post.spec_balance_of(from) + post.spec_balance_of(to)
}

/// The full effect of an approval: the (caller, spender) allowance is
/// overwritten with `value` — regardless of its previous amount — a matching
/// approval notification is recorded, and nothing else changes.
pub open spec fn approve_post(
    pre: PspCoin,
    post: PspCoin,
    caller: AccountId,
    spender: AccountId,
    value: u128,
) -> bool {
    &&& post.spec_allowance(caller, spender) == value
    &&& forall|o: AccountId, p: AccountId|
        !(o == caller && p == spender) ==> post.spec_allowance(o, p) == pre.spec_allowance(o, p)
    &&& balances_unchanged(pre, post)
    &&& post.spec_total_supply() == pre.spec_total_supply()
    &&& metadata_unchanged(pre, post)
    &&& post.spec_events() == pre.spec_events().push(approval_event(caller, spender, value))
}

impl PspCoin {
    /// Creates the ledger with `total_supply` credited in full to the creating
    /// caller, and records the one matching transfer notification.
    pub fn new(
        caller: AccountId,
        total_supply: u128,
        name: Option<String>,
        symbol: Option<String>,
        decimals: u8,
    ) -> (r: PspCoin)
        ensures
            r.wf(),
            r.conserved(),
            r.spec_total_supply() == total_supply,
            r.spec_balance_of(caller) == total_supply,
            forall|a: AccountId| a != caller ==> r.spec_balance_of(a) == 0,
            forall|o: AccountId, p: AccountId| r.spec_allowance(o, p) == 0,
            r.spec_name() == view_opt(name),
            r.spec_symbol() == view_opt(symbol),
            r.spec_decimals() == decimals,
            r.spec_events() =~= seq![transfer_event(None, Some(caller), total_supply)],
    {
        let mut balances = Balances::new();
        balances.set(caller, total_supply);
        let allowances = Allowances::new();
        let mut events: Vec<Event> = Vec::new();
        events.push(Event::Transfer(Transfer { from: None, to: Some(caller), value: total_supply }));
        PspCoin { total_supply, balances, allowances, name, symbol, decimals, events }
    }

    /// Creates the ledger with a fixed example supply and metadata.
    pub fn default(caller: AccountId) -> (r: PspCoin)
        ensures
            r.wf(),
            r.conserved(),
            r.spec_total_supply() == 1000000u128,
            r.spec_balance_of(caller) == 1000000u128,
            forall|a: AccountId| a != caller ==> r.spec_balance_of(a) == 0,
            forall|o: AccountId, p: AccountId| r.spec_allowance(o, p) == 0,
            r.spec_name() == Some("MyToken"@),
            r.spec_symbol() == Some("MTK"@),
            r.spec_decimals() == 18u8,
    {
        PspCoin::new(
            caller,
            1000000,
            Some(String::from_str("MyToken")),
            Some(String::from_str("MTK")),
            18,
        )
    }

    /// Returns the total token supply.
    pub fn total_supply(&self) -> (r: u128)
        ensures
            r == self.spec_total_supply(),
    {
        self.total_supply
    }

    /// Returns the account balance for the specified owner.
    pub fn balance_of(&self, owner: AccountId) -> (r: u128)
        requires
            self.wf(),
        ensures
            r == self.spec_balance_of(owner),
    {
        self.balances.get(owner)
    }

    /// Returns the amount which `spender` is still allowed to withdraw from
    /// `owner`.
    pub fn allowance(&self, owner: AccountId, spender: AccountId) -> (r: u128)
        requires
            self.wf(),
        ensures
            r == self.spec_allowance(owner, spender),
    {
        self.allowances.get(owner, spender)
    }

    /// Returns the token name.
    pub fn token_name(&self) -> (r: Option<String>)
        ensures
            view_opt(r) == self.spec_name(),
    {
        match &self.name {
            Some(s) => Some(s.clone()),
            None => None,
        }
    }

    /// Returns the token symbol.
    pub fn token_symbol(&self) -> (r: Option<String>)
        ensures
            view_opt(r) == self.spec_symbol(),
    {
        match &self.symbol {
            Some(s) => Some(s.clone()),
            None => None,
        }
    }

    /// Returns the token decimals.
    pub fn token_decimals(&self) -> (r: u8)
        ensures
            r == self.spec_decimals(),
    {
        self.decimals
    }

    /// Hands the recorded notifications to the surrounding environment for
    /// dispatch, leaving none recorded; the ledger state is otherwise
    /// untouched.
    pub fn take_events(&mut self) -> (r: Vec<Event>)
        ensures
            r@ == old(self).spec_events(),
            final(self).spec_events() =~= Seq::<Event>::empty(),
            final(self).wf() == old(self).wf(),
            final(self).spec_total_supply() == old(self).spec_total_supply(),
            balances_unchanged(*old(self), *final(self)),
            allowances_unchanged(*old(self), *final(self)),
            metadata_unchanged(*old(self), *final(self)),
    {
        let mut out: Vec<Event> = Vec::new();
        core::mem::swap(&mut self.events, &mut out);
        out
    }

    /// Moves `value` from `from` to `to` after checking `from`'s balance, and
    /// records the transfer notification. The debit and credit are evaluated
    /// against the balance read before any write, so a self-move neither fails
    /// spuriously nor drifts.
    fn transfer_from_to(&mut self, from: AccountId, to: AccountId, value: u128) -> (r: Result<
        (),
        PSP22Error,
    >)
        requires
            old(self).wf(),
        ensures
            final(self).wf(),
            r is Ok <==> old(self).spec_balance_of(from) >= value,
            r is Err ==> r == Err::<(), PSP22Error>(PSP22Error::InsufficientBalance) && *final(self)
                == *old(self),
            r is Ok ==> balances_moved(*old(self), *final(self), from, to, value),
            r is Ok ==> final(self).spec_total_supply() == old(self).spec_total_supply(),
            r is Ok ==> allowances_unchanged(*old(self), *final(self)),
            r is Ok ==> metadata_unchanged(*old(self), *final(self)),
            r is Ok ==> final(self).spec_events() == old(self).spec_events().push(
                transfer_event(Some(from), Some(to), value)),
            old(self).conserved() ==> final(self).conserved(),
    {
        let from_balance = self.balances.get(from);
        if from_balance < value {
            return Err(PSP22Error::InsufficientBalance);
        }
        proof {
            if old(self).conserved() && from != to {
                lemma_two_balances_le_sum(old(self).balances@, from, to);
            }
        }
        self.balances.set(from, from_balance.saturating_sub(value));
        let to_balance = self.balances.get(to);
        self.balances.set(to, to_balance.saturating_add(value));
        self.events.push(Event::Transfer(Transfer { from: Some(from), to: Some(to), value }));
        Ok(())
    }

    /// Transfers `value` tokens from the caller's account to `to`. Fails with
    /// `InsufficientBalance`, and changes nothing, when the caller holds less
    /// than `value`.
    pub fn transfer(&mut self, caller: AccountId, to: AccountId, value: u128) -> (r: Result<
        (),
        PSP22Error,
    >)
        requires
            old(self).wf(),
        ensures
            final(self).wf(),
            r is Ok <==> old(self).spec_balance_of(caller) >= value,
            r is Err ==> r == Err::<(), PSP22Error>(PSP22Error::InsufficientBalance) && *final(self)
                == *old(self),
            r is Ok ==> balances_moved(*old(self), *final(self), caller, to, value),
            r is Ok ==> final(self).spec_total_supply() == old(self).spec_total_supply(),
            r is Ok ==> allowances_unchanged(*old(self), *final(self)),
            r is Ok ==> metadata_unchanged(*old(self), *final(self)),
            r is Ok ==> final(self).spec_events() == old(self).spec_events().push(
                transfer_event(Some(caller), Some(to), value)),
            old(self).conserved() ==> final(self).conserved(),
    {
        self.transfer_from_to(caller, to, value)
    }

    /// Transfers `value` tokens from `from` to `to` on behalf of `caller`,
    /// against the allowance `from` granted to `caller`. The allowance is
    /// checked first: when it is short the call fails with
    /// `InsufficientAllowance` and changes nothing. When the allowance
    /// suffices but `from`'s balance does not, the call fails with
    /// `InsufficientBalance` and the allowance too is left unchanged. On
    /// success the allowance is decremented by exactly `value`, and only the
    /// transfer notification is recorded.
    pub fn transfer_from(
        &mut self,
        caller: AccountId,
        from: AccountId,
        to: AccountId,
        value: u128,
    ) -> (r: Result<(), PSP22Error>)
        requires
            old(self).wf(),
        ensures
            final(self).wf(),
            r is Ok <==> old(self).spec_allowance(from, caller) >= value && old(
                self).spec_balance_of(from) >= value,
            old(self).spec_allowance(from, caller) < value ==> r == Err::<(), PSP22Error>(
                PSP22Error::InsufficientAllowance) && *final(self) == *old(self),
            old(self).spec_allowance(from, caller) >= value && old(self).spec_balance_of(from)
                < value ==> r == Err::<(), PSP22Error>(PSP22Error::InsufficientBalance) && *final(
                self) == *old(self),
            r is Ok ==> balances_moved(*old(self), *final(self), from, to, value),
            r is Ok ==> final(self).spec_allowance(from, caller) == old(self).spec_allowance(
                from, caller) - value,
            r is Ok ==> forall|o: AccountId, p: AccountId|
                !(o == from && p == caller) ==> final(self).spec_allowance(o, p) == old(
                    self).spec_allowance(o, p),
            r is Ok ==> final(self).spec_total_supply() == old(self).spec_total_supply(),
            r is Ok ==> metadata_unchanged(*old(self), *final(self)),
            r is Ok ==> final(self).spec_events() == old(self).spec_events().push(
                transfer_event(Some(from), Some(to), value)),
            old(self).conserved() ==> final(self).conserved(),
    {
        let current = self.allowance(from, caller);
        if current < value {
            return Err(PSP22Error::InsufficientAllowance);
        }
        match self.transfer_from_to(from, to, value) {
            Ok(()) => {},
            Err(e) => {
                return Err(e);
            },
        }
        self.allowances.set(from, caller, current.saturating_sub(value));
        Ok(())
    }

    /// Sets the allowance `spender` may withdraw from the caller to `value`,
    /// overwriting — not adding to — any previous allowance, and records the
    /// approval notification. Always succeeds. The overwrite semantics avoid
    /// the classic race of two compounding approvals; callers that want an
    /// incremental change use `increase_allowance` or `decrease_allowance`.
    pub fn approve(&mut self, caller: AccountId, spender: AccountId, value: u128) -> (r: Result<
        (),
        PSP22Error,
    >)
        requires
            old(self).wf(),
        ensures
            final(self).wf(),
            r is Ok,
            approve_post(*old(self), *final(self), caller, spender, value),
            old(self).conserved() ==> final(self).conserved(),
    {
        self.allowances.set(caller, spender, value);
        self.events.push(Event::Approval(Approval { owner: caller, spender, value }));
        Ok(())
    }

    /// Raises the allowance granted to `spender` by the caller by
    /// `delta_value`, saturating at the amount type's maximum, through the
    /// approve path — so an approval notification is recorded. Always
    /// succeeds.
    pub fn increase_allowance(
        &mut self,
        caller: AccountId,
        spender: AccountId,
        delta_value: u128,
    ) -> (r: Result<(), PSP22Error>)
        requires
            old(self).wf(),
        ensures
            final(self).wf(),
            r is Ok,
            approve_post(*old(self), *final(self), caller, spender,
                old(self).spec_allowance(caller, spender).saturating_add(delta_value)),
            old(self).conserved() ==> final(self).conserved(),
    {
        let current = self.allowance(caller, spender);
        self.approve(caller, spender, current.saturating_add(delta_value))
    }

    /// Lowers the allowance granted to `spender` by the caller by
    /// `delta_value`, through the approve path. Fails with
    /// `InsufficientAllowance`, and changes nothing, when the current
    /// allowance is less than `delta_value`.
    pub fn decrease_allowance(
        &mut self,
        caller: AccountId,
        spender: AccountId,
        delta_value: u128,
    ) -> (r: Result<(), PSP22Error>)
        requires
            old(self).wf(),
        ensures
            final(self).wf(),
            r is Ok <==> old(self).spec_allowance(caller, spender) >= delta_value,
            r is Err ==> r == Err::<(), PSP22Error>(PSP22Error::InsufficientAllowance) && *final(
                self) == *old(self),
            r is Ok ==> approve_post(*old(self), *final(self), caller, spender,
                (old(self).spec_allowance(caller, spender) - delta_value) as u128),
            old(self).conserved() ==> final(self).conserved(),
    {
        let current = self.allowance(caller, spender);
        if current < delta_value {
            return Err(PSP22Error::InsufficientAllowance);
        }
        self.approve(caller, spender, current.saturating_sub(delta_value))
    }

    /// Credits `value` tokens to the caller's balance and raises the total
    /// supply by the same amount, both with saturating addition, and records a
    /// transfer notification with no source account. Any caller may mint;
    /// always succeeds. Conservation is kept whenever the addition does not
    /// saturate.
    pub fn mint(&mut self, caller: AccountId, value: u128) -> (r: Result<(), PSP22Error>)
        requires
            old(self).wf(),
        ensures
            final(self).wf(),
            r is Ok,
            final(self).spec_balance_of(caller) == old(self).spec_balance_of(
                caller).saturating_add(value),
            forall|a: AccountId|
                a != caller ==> final(self).spec_balance_of(a) == old(self).spec_balance_of(a),
            final(self).spec_total_supply() == old(self).spec_total_supply().saturating_add(value),
            final(self).spec_balance_total() == old(self).spec_balance_total() - old(
                self).spec_balance_of(caller) + final(self).spec_balance_of(caller),
            allowances_unchanged(*old(self), *final(self)),
            metadata_unchanged(*old(self), *final(self)),
            final(self).spec_events() == old(self).spec_events().push(
                transfer_event(None, Some(caller), value)),
            old(self).conserved() && old(self).spec_total_supply() + value <= u128::MAX ==> final(
                self).conserved(),
    {
        proof {
            lemma_balance_le_sum(old(self).balances@, caller);
        }
        let balance = self.balances.get(caller);
        self.balances.set(caller, balance.saturating_add(value));
        self.total_supply = self.total_supply.saturating_add(value);
        self.events.push(Event::Transfer(Transfer { from: None, to: Some(caller), value }));
        Ok(())
    }

    /// Debits `value` tokens from the caller's balance and lowers the total
    /// supply by the same amount, and records a transfer notification with no
    /// destination account. Fails with `InsufficientBalance`, and changes
    /// nothing, when the caller holds less than `value`.
    pub fn burn(&mut self, caller: AccountId, value: u128) -> (r: Result<(), PSP22Error>)
        requires
            old(self).wf(),
        ensures
            final(self).wf(),
            r is Ok <==> old(self).spec_balance_of(caller) >= value,
            r is Err ==> r == Err::<(), PSP22Error>(PSP22Error::InsufficientBalance) && *final(self)
                == *old(self),
            r is Ok ==> final(self).spec_balance_of(caller) == old(self).spec_balance_of(caller)
                - value,
            r is Ok ==> forall|a: AccountId|
                a != caller ==> final(self).spec_balance_of(a) == old(self).spec_balance_of(a),
            r is Ok ==> final(self).spec_total_supply() == old(
                self).spec_total_supply().saturating_sub(value),
            r is Ok ==> final(self).spec_balance_total() == old(self).spec_balance_total() - value,
            r is Ok ==> allowances_unchanged(*old(self), *final(self)),
            r is Ok ==> metadata_unchanged(*old(self), *final(self)),
            r is Ok ==> final(self).spec_events() == old(self).spec_events().push(
                transfer_event(Some(caller), None, value)),
            old(self).conserved() ==> final(self).conserved(),
    {
        proof {
            lemma_balance_le_sum(old(self).balances@, caller);
        }
        let balance = self.balances.get(caller);
        if balance < value {
            return Err(PSP22Error::InsufficientBalance);
        }
        self.balances.set(caller, balance.saturating_sub(value));
        self.total_supply = self.total_supply.saturating_sub(value);
        self.events.push(Event::Transfer(Transfer { from: Some(caller), to: None, value }));
        Ok(())
    }
}

/// Non-negativity: balances and allowances are unsigned amounts, so no state
/// of the ledger holds a balance or allowance below zero.
pub proof fn lemma_non_negative(l: PspCoin, a: AccountId, owner: AccountId, spender: AccountId)
    ensures
        l.spec_balance_of(a) >= 0,
        l.spec_allowance(owner, spender) >= 0,
{
}

/// Approve overwrites: two successive approvals of the same (owner, spender)
/// pair leave the allowance at the second value alone, never the sum of the
/// two.
pub proof fn lemma_approve_overwrite(
    s0: PspCoin,
    s1: PspCoin,
    s2: PspCoin,
    caller: AccountId,
    spender: AccountId,
    v1: u128,
    v2: u128,
)
    requires
        approve_post(s0, s1, caller, spender, v1),
        approve_post(s1, s2, caller, spender, v2),
    ensures
        s2.spec_allowance(caller, spender) == v2,
        s2.spec_allowance(caller, spender) != v1 + v2 || v1 == 0,
{
}

} // verus!
