//! What holds of every pool and every trade.

use vstd::prelude::*;
use vstd::arithmetic::mul::lemma_mul_is_commutative;
use crate::error::SwapError;
use crate::ledger::{AssetId, LedgerReport};
use crate::pricing::{lemma_reserve_out_after, reserve_out_after};
use crate::state::{pool_after_swap, pool_quote, pool_swap, PairState};

verus! {

/// A trade that is quoted pays out less than the output reserve, and never a
/// negative amount: the pool cannot be drained.
pub proof fn lemma_no_drain(state: PairState, is_in_x: bool, amount_in: int)
    requires
        state.wf(),
        state.quote(is_in_x, amount_in) is Ok,
    ensures
        0 <= state.quote(is_in_x, amount_in).unwrap() < state.reserve_out(is_in_x),
{
    lemma_reserve_out_after(state.reserve_in(is_in_x), state.reserve_out(is_in_x), amount_in);
}

/// A committed trade leaves a well-formed state: both reserves stay
/// positive, the assets stay the same, and the invariant is again the product
/// of the reserves.
pub proof fn lemma_swap_preserves_wf(state: PairState, is_in_x: bool, amount_in: int)
    requires
        state.wf(),
        state.quote(is_in_x, amount_in) is Ok,
    ensures
        state.after_swap(is_in_x, amount_in).wf(),
        state.after_swap(is_in_x, amount_in).reserve_x > 0,
        state.after_swap(is_in_x, amount_in).reserve_y > 0,
        state.after_swap(is_in_x, amount_in).token_x == state.token_x,
        state.after_swap(is_in_x, amount_in).token_y == state.token_y,
{
    lemma_swap_never_raises_product(state, is_in_x, amount_in);
}

/// A committed trade never raises the product of the reserves. It lowers it
/// by the remainder of the division that priced the trade, so the product
/// stays equal exactly when that division is exact.
pub proof fn lemma_swap_never_raises_product(state: PairState, is_in_x: bool, amount_in: int)
    requires
        state.wf(),
        state.quote(is_in_x, amount_in) is Ok,
    ensures
        ({
            let after = state.after_swap(is_in_x, amount_in);
            let before = state.reserve_x * state.reserve_y;
            let lost = before % (state.reserve_in(is_in_x) + amount_in);
            &&& after.reserve_x * after.reserve_y == before - lost
            &&& after.reserve_x * after.reserve_y <= before
            &&& lost >= 0
            &&& after.invariant_k <= state.invariant_k
        }),
{
    let reserve_in = state.reserve_in(is_in_x);
    let reserve_out = state.reserve_out(is_in_x);
    let after = state.after_swap(is_in_x, amount_in);
    lemma_reserve_out_after(reserve_in, reserve_out, amount_in);
    lemma_mul_is_commutative(state.reserve_x, state.reserve_y);
    lemma_mul_is_commutative(after.reserve_x, after.reserve_y);
    assert(after.reserve_in(is_in_x) == reserve_in + amount_in);
    assert(after.reserve_out(is_in_x) == reserve_out_after(reserve_in, reserve_out, amount_in));
}

/// Initialization, where it succeeds, creates a well-formed state that holds
/// exactly the amounts it was given.
pub proof fn lemma_create_wf(token_x: AssetId, token_y: AssetId, amount_x: int, amount_y: int)
    requires
        PairState::create(token_x, token_y, amount_x, amount_y) is Ok,
    ensures
        PairState::create(token_x, token_y, amount_x, amount_y).unwrap().wf(),
        PairState::create(token_x, token_y, amount_x, amount_y).unwrap().reserve_x == amount_x,
        PairState::create(token_x, token_y, amount_x, amount_y).unwrap().reserve_y == amount_y,
{
}

/// Whatever a swap is asked and whatever the host reports, a pool that held
/// nothing or a well-formed state holds nothing or a well-formed state
/// afterwards: in every state that can be reached both reserves are positive.
pub proof fn lemma_reserves_stay_positive(
    state: Option<PairState>,
    is_in_x: bool,
    amount_in: int,
    report: LedgerReport,
)
    requires
        state matches Some(s) ==> s.wf(),
    ensures
        pool_after_swap(state, is_in_x, amount_in, report) matches Some(t) ==> t.wf() && t.reserve_x
            > 0 && t.reserve_y > 0,
{
    if state is Some && pool_swap(state, is_in_x, amount_in, report) is Ok {
        lemma_swap_preserves_wf(state.unwrap(), is_in_x, amount_in);
    }
}

/// A swap whose transfers settled returns what a quote on the same state
/// answers, and a swap that succeeds at all returns the quoted amount.
pub proof fn lemma_swap_pays_the_quote(
    state: Option<PairState>,
    is_in_x: bool,
    amount_in: int,
    report: LedgerReport,
)
    ensures
        pool_swap(state, is_in_x, amount_in, LedgerReport::Settled) == pool_quote(
            state,
            is_in_x,
            amount_in,
        ),
        pool_swap(state, is_in_x, amount_in, report) is Ok ==> pool_swap(
            state,
            is_in_x,
            amount_in,
            report,
        ) == pool_quote(state, is_in_x, amount_in),
        pool_quote(state, is_in_x, amount_in) is Err ==> pool_swap(state, is_in_x, amount_in, report)
            == pool_quote(state, is_in_x, amount_in),
{
}

/// A swap that fails, for whatever reason, leaves the pool holding exactly
/// what it held before.
pub proof fn lemma_failed_swap_changes_nothing(
    state: Option<PairState>,
    is_in_x: bool,
    amount_in: int,
    report: LedgerReport,
)
    requires
        pool_swap(state, is_in_x, amount_in, report) is Err,
    ensures
        pool_after_swap(state, is_in_x, amount_in, report) == state,
{
}

/// A trade of nothing pays nothing, in either direction.
pub proof fn lemma_quote_of_zero(state: PairState, is_in_x: bool)
    requires
        state.wf(),
    ensures
        state.quote(is_in_x, 0) == Ok::<int, SwapError>(0),
        state.after_swap(is_in_x, 0) == state,
{
    lemma_reserve_out_after(state.reserve_in(is_in_x), state.reserve_out(is_in_x), 0);
    lemma_mul_is_commutative(state.reserve_x, state.reserve_y);
    lemma_reserve_bounds(state);
}

/// Each reserve of a well-formed state fits in 128 signed bits.
pub proof fn lemma_reserve_bounds(state: PairState)
    requires
        state.wf(),
    ensures
        state.reserve_x <= state.invariant_k <= i128::MAX,
        state.reserve_y <= state.invariant_k <= i128::MAX,
{
    assert(state.reserve_x <= state.reserve_x * state.reserve_y && state.reserve_y <= state.reserve_x
        * state.reserve_y) by (nonlinear_arith)
        requires
            0 < state.reserve_x,
            0 < state.reserve_y,
    ;
}

} // verus!
