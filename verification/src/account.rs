use vstd::prelude::*;

verus! {

/// An opaque identifier for a party able to hold balance or act as a caller.
/// Nothing is assumed of it beyond equality and use as a lookup key.
#[derive(Clone, Copy, Debug, PartialEq, Eq, Structural, Hash)]
pub struct AccountId {
    pub id: u64,
}

} // verus!
