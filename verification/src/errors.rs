use vstd::prelude::*;

verus! {

/// Why a ledger operation was refused.
///
/// Every operation either fully applies its effect or fails with one of
/// these reasons and leaves every record exactly as it was.
#[derive(Clone, Copy, Debug, PartialEq, Eq, Structural)]
pub enum VoteError {
    /// A record already occupies the derived address of the key being created.
    AlreadyExists,
    /// No record occupies the derived address of the key being resolved.
    NotFound,
    /// A counter is already at `u64::MAX` and cannot be incremented.
    Overflow,
    /// A text input exceeds the 280-byte bound on its encoded form.
    EncodingTooLarge,
}

} // verus!
