use vstd::prelude::*;

verus! {

/// Every failure an operation can surface. All errors are terminal for
/// the current invocation: no record mutation of a failed operation is
/// kept.
#[derive(Clone, Copy, Debug, PartialEq, Eq, Structural)]
pub enum BullPosterError {
    /// A competition was not in the status the operation demands.
    InvalidCompetitionStatus,
    /// A competition already holds its required number of programs.
    CompetitionFull,
    /// The user is already enrolled in the program.
    UserAlreadyEnrolled,
    /// The balance on hand cannot cover the requested movement.
    InsufficientTokens,
    /// A decode hit a structural violation (a declared length running
    /// past the end of the buffer, an unknown tag).
    MalformedRecord,
    /// An encode would overflow the record's fixed capacity.
    BufferTooSmall,
    /// A caller-supplied address disagrees with the re-derived one.
    AddressMismatch,
    /// Create-if-absent allocation found the address already occupied.
    AlreadyInitialized,
    /// A required signer or owner check failed.
    MissingAuthorization,
    /// An input lies outside its declared bounds, or a counter cannot
    /// advance without wrapping.
    InvalidArgument,
    /// No record lives at the given address.
    RecordNotFound,
}

} // verus!
