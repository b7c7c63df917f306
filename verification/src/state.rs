//! The pair state as mathematics, and how a trade changes it.

use vstd::prelude::*;
use crate::error::SwapError;
use crate::ledger::{AssetId, LedgerReport};
use crate::pricing::{amount_out, quote};

verus! {

/// The pool's single record, with unbounded integers.
pub struct PairState {
    pub token_x: AssetId,
    pub token_y: AssetId,
    pub reserve_x: int,
    pub reserve_y: int,
    pub invariant_k: int,
}

impl PairState {
    /// The conditions every pair state meets: two different assets, two
    /// positive reserves, and their product cached in `invariant_k`, which
    /// fits in 128 signed bits.
    pub open spec fn wf(self) -> bool {
        &&& self.token_x != self.token_y
        &&& 0 < self.reserve_x
        &&& 0 < self.reserve_y
        &&& self.invariant_k == self.reserve_x * self.reserve_y
        &&& self.invariant_k <= i128::MAX
    }

    /// The reserve of the asset that the trader supplies.
    pub open spec fn reserve_in(self, is_in_x: bool) -> int {
        if is_in_x {
            self.reserve_x
        } else {
            self.reserve_y
        }
    }

    /// The reserve of the asset that the trader receives.
    pub open spec fn reserve_out(self, is_in_x: bool) -> int {
        if is_in_x {
            self.reserve_y
        } else {
            self.reserve_x
        }
    }

    /// The asset that the trader supplies.
    pub open spec fn token_in(self, is_in_x: bool) -> AssetId {
        if is_in_x {
            self.token_x
        } else {
            self.token_y
        }
    }

    /// The asset that the trader receives.
    pub open spec fn token_out(self, is_in_x: bool) -> AssetId {
        if is_in_x {
            self.token_y
        } else {
            self.token_x
        }
    }

    /// The state that initialization creates, or why it creates none.
    pub open spec fn create(token_x: AssetId, token_y: AssetId, amount_x: int, amount_y: int) -> Result<
        PairState,
        SwapError,
    > {
        if token_x == token_y || amount_x <= 0 || amount_y <= 0 {
            Err(SwapError::InvalidInput)
        } else if amount_x * amount_y > i128::MAX {
            Err(SwapError::ArithmeticOverflow)
        } else {
            Ok(
                PairState {
                    token_x,
                    token_y,
                    reserve_x: amount_x,
                    reserve_y: amount_y,
                    invariant_k: amount_x * amount_y,
                },
            )
        }
    }

    /// The amount that a trade of `amount_in` would pay out, or why it is refused.
    pub open spec fn quote(self, is_in_x: bool, amount_in: int) -> Result<int, SwapError> {
        quote(self.reserve_in(is_in_x), self.reserve_out(is_in_x), amount_in)
    }

    /// The state after a trade of `amount_in` has been committed: the input
    /// reserve grown by `amount_in`, the output reserve shrunk by what was
    /// paid out, and the invariant recomputed as their product.
    pub open spec fn after_swap(self, is_in_x: bool, amount_in: int) -> PairState {
        let paid = amount_out(self.reserve_in(is_in_x), self.reserve_out(is_in_x), amount_in);
        let reserve_x = if is_in_x {
            self.reserve_x + amount_in
        } else {
            self.reserve_x - paid
        };
        let reserve_y = if is_in_x {
            self.reserve_y - paid
        } else {
            self.reserve_y + amount_in
        };
        PairState {
            token_x: self.token_x,
            token_y: self.token_y,
            reserve_x,
            reserve_y,
            invariant_k: reserve_x * reserve_y,
        }
    }

    /// What a trade returns once the host has reported on the transfers.
    pub open spec fn settle(self, is_in_x: bool, amount_in: int, report: LedgerReport) -> Result<
        int,
        SwapError,
    > {
        match self.quote(is_in_x, amount_in) {
            Err(e) => Err(e),
            Ok(paid) => match report {
                LedgerReport::Settled => Ok(paid),
                LedgerReport::Unauthorized => Err(SwapError::Unauthorized),
                LedgerReport::TransferFailed => Err(SwapError::LedgerTransferFailed),
            },
        }
    }
}

/// What a quote answers on a pool that may not be initialized yet.
///
/// The amount is judged first: a negative one is invalid whatever the pool
/// holds.
pub open spec fn pool_quote(state: Option<PairState>, is_in_x: bool, amount_in: int) -> Result<
    int,
    SwapError,
> {
    if amount_in < 0 {
        Err(SwapError::InvalidInput)
    } else {
        match state {
            None => Err(SwapError::NotInitialized),
            Some(s) => s.quote(is_in_x, amount_in),
        }
    }
}

/// What a swap returns on a pool that may not be initialized yet.
pub open spec fn pool_swap(
    state: Option<PairState>,
    is_in_x: bool,
    amount_in: int,
    report: LedgerReport,
) -> Result<int, SwapError> {
    if amount_in < 0 {
        Err(SwapError::InvalidInput)
    } else {
        match state {
            None => Err(SwapError::NotInitialized),
            Some(s) => s.settle(is_in_x, amount_in, report),
        }
    }
}

/// What the pool holds after a swap: the traded state where the swap
/// succeeded, and what it held before where it failed.
pub open spec fn pool_after_swap(
    state: Option<PairState>,
    is_in_x: bool,
    amount_in: int,
    report: LedgerReport,
) -> Option<PairState> {
    match (state, pool_swap(state, is_in_x, amount_in, report)) {
        (Some(s), Ok(_)) => Some(s.after_swap(is_in_x, amount_in)),
        _ => state,
    }
}

} // verus!
