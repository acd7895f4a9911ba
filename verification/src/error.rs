use vstd::prelude::*;

verus! {

/// Every way an operation of the registry can fail.
#[derive(Clone, Copy, Debug, PartialEq, Eq, Structural)]
pub enum RegistryError {
    /// A key differs from the key it has to equal.
    AddressMismatch,
    /// A slot is held by another owner than the one expected.
    OwnershipMismatch,
    /// A record's header carries another tag than that of its kind.
    SchemaTagMismatch,
    /// A page already holds as many entries as a page may hold.
    PageCapacityExceeded,
    /// The key is already stored in the page.
    DuplicateEntry,
    /// The key is not stored in the page.
    NotFound,
    /// A name is empty or too long once normalized.
    InvalidNameLength,
    /// The name is already registered in some page.
    DuplicateName,
    /// A value that had to be present is absent.
    MissingValue,
    /// A slot that had to sign did not.
    MissingRequiredSignature,
    /// The instruction bytes do not describe a supported operation.
    InvalidInstructionData,
    /// Fewer slots were handed in than the operation reads.
    NotEnoughAccountKeys,
    /// The payer cannot fund collateral or fee.
    InsufficientFunds,
    /// A slot's buffer has not the size that its record needs.
    BufferSizeMismatch,
    /// A position lies beyond the entries of a page.
    IndexOutOfRange,
    /// The unit to register is not executable.
    NotExecutable,
    /// A slot that had to be fresh is already in use.
    AlreadyInitialized,
    /// A counter or a balance would pass the largest number it can hold.
    ArithmeticOverflow,
}

} // verus!
