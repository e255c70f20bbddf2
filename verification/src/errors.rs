//! The single error taxonomy shared by both engines. Every failure aborts
//! the whole call with no partial effects; the variant says why.

use vstd::prelude::*;

verus! {

/// Why a call was rejected. Each transition's contract says exactly which
/// variant comes back on which inputs.
#[derive(Clone, Copy, Debug, PartialEq, Eq, Structural)]
pub enum LedgerError {
    /// Malformed or out-of-range input (expiration not in the future,
    /// fee percentage above the cap).
    ValidationError,
    /// The caller is not the required creator, recipient or owner.
    AuthorizationError,
    /// The entity is missing or not in the required status.
    StateError,
    /// Too early or too late: cooldown not elapsed, or the offer expired.
    TimingError,
    /// An oracle condition evaluated false, or the oracle read failed.
    ConditionError,
    /// A checked subtraction would underflow.
    ArithmeticError,
}

} // verus!
