//! The failures a pool operation can report.

use vstd::prelude::*;

verus! {

/// Why a pool operation was refused. Every failure leaves the pool as it was.
#[derive(Copy, Clone, Debug, PartialEq, Eq, Structural)]
pub enum SwapError {
    /// A negative amount, a non-positive initial reserve, or the same asset given twice.
    InvalidInput,
    /// A sum or product of amounts does not fit in 128 signed bits.
    ArithmeticOverflow,
    /// The trade would pay out the whole output reserve.
    InsufficientLiquidity,
    /// The caller did not authorize the transfer of the input asset.
    Unauthorized,
    /// A ledger refused to move the funds.
    LedgerTransferFailed,
    /// The pool holds no pair state yet.
    NotInitialized,
}

} // verus!
