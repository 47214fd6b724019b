use vstd::prelude::*;

verus! {

/// Why an operation was refused. A refused operation changes nothing.
#[derive(Clone, Copy, Debug, PartialEq, Eq, Structural)]
pub enum SibError {
    /// A text field is longer than its cap.
    StringTooLong,
    /// The signer may not perform this action.
    NotAuthorized,
    /// The delegated admin list is at capacity.
    AdminListFull,
    /// A record already occupies the target address.
    DuplicateRecord,
    /// The admin registry has not been created yet.
    NotInitialized,
    /// No record exists at the given address.
    RecordNotFound,
    /// No bump seed yields an address off the curve for these seeds.
    NoViableAddress,
}

} // verus!
