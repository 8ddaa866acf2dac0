use vstd::prelude::*;

verus! {

/// Closed error taxonomy of the library.
///
/// Every fallible operation reports exactly one of these; the conditions under
/// which each variant is returned are part of each function's contract.
#[derive(Clone, Copy, Debug, PartialEq, Eq, Structural)]
pub enum TokenError {
    /// An address string did not decode to a 32-byte address.
    InvalidAddress,
    /// An amount string was not a well-formed decimal number, or carried more
    /// fractional digits than the mint's precision allows.
    InvalidAmount,
    /// A well-formed amount does not fit into the 64-bit base-unit range.
    AmountOverflow,
    /// A program id handed to an instruction builder is not the token program
    /// the builder serves.
    IncorrectProgram,
    /// An account record fetched from the ledger is malformed.
    InvalidAccountData,
    /// An account record is well-formed but marked uninitialized.
    UninitializedAccount,
}

} // verus!
