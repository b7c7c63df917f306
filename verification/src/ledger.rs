//! What the pool and its host say to each other about the asset ledgers.
//!
//! The pool never moves funds itself. It names the two transfers a trade
//! needs, the host performs them on the ledgers of the two assets, and the
//! host's report decides whether the trade is committed.

use vstd::prelude::*;

verus! {

/// The identifier of a tradable asset: 256 bits, held as two halves.
///
/// The pool only ever compares identifiers for equality.
#[derive(Copy, Clone, Debug, PartialEq, Eq, Structural)]
pub struct AssetId {
    pub hi: u128,
    pub lo: u128,
}

/// The two transfers that carry out a trade.
///
/// The host first pulls `amount_in` of `token_in` from the trader into the
/// pool's custody, on the trader's authorization, and then pushes
/// `amount_out` of `token_out` from the pool to the trader.
#[derive(Copy, Clone, Debug, PartialEq, Eq, Structural)]
pub struct SwapPlan {
    pub token_in: AssetId,
    pub token_out: AssetId,
    pub amount_in: i128,
    pub amount_out: i128,
}

/// What came of the host's attempt to carry out a `SwapPlan`.
#[derive(Copy, Clone, Debug, PartialEq, Eq, Structural)]
pub enum LedgerReport {
    /// Both transfers went through.
    Settled,
    /// The trader did not authorize the transfer of the input asset.
    Unauthorized,
    /// A ledger refused one of the transfers.
    TransferFailed,
}

} // verus!
