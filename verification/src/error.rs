use vstd::prelude::*;

verus! {

/// The closed set of failures a ledger operation can report. All of them are
/// recoverable by the caller; none leaves the ledger in a partial state.
///
/// `ZeroRecipientAddress` and `ZeroSenderAddress` are declared for interface
/// compatibility with token standards that reject a sentinel account, but no
/// operation of this ledger raises them: the ledger accepts every account
/// identifier. `Custom` and `SafeTransferCheckFailed` are extension points for
/// richer transfer hooks and are likewise never raised by the core operations.
#[derive(Debug, PartialEq, Eq)]
pub enum PSP22Error {
    Custom(String),
    InsufficientBalance,
    InsufficientAllowance,
    ZeroRecipientAddress,
    ZeroSenderAddress,
    SafeTransferCheckFailed(String),
}

} // verus!
