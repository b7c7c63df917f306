//! The pool engine: the pair-state record and the operations on it.

use vstd::prelude::*;
use vstd::arithmetic::mul::{lemma_mul_is_commutative, lemma_mul_strictly_positive};
use crate::error::SwapError;
use crate::ledger::{AssetId, LedgerReport, SwapPlan};
use crate::laws::{lemma_no_drain, lemma_swap_never_raises_product, lemma_swap_preserves_wf};
use crate::pricing::{lemma_reserve_out_after, reserve_out_after};
use crate::state::{pool_after_swap, pool_quote, pool_swap, PairState};

verus! {

/// The amount that seeds each reserve where the host has no amounts of its own.
pub const INITIAL_RESERVE: i128 = 100000;

/// A result with its amount read as a mathematical integer.
pub open spec fn widen(result: Result<i128, SwapError>) -> Result<int, SwapError> {
    match result {
        Ok(amount) => Ok(amount as int),
        Err(e) => Err(e),
    }
}

/// The pair state: two assets, the reserve held of each, and the product of
/// the reserves. A value of this type always meets `PairState::wf`.
#[derive(Copy, Clone, Debug, PartialEq, Eq, Structural)]
pub struct Pool {
    token_x: AssetId,
    token_y: AssetId,
    token_amount_x: i128,
    token_amount_y: i128,
    k_factor: i128,
}

impl View for Pool {
    type V = PairState;

    closed spec fn view(&self) -> PairState {
        PairState {
            token_x: self.token_x,
            token_y: self.token_y,
            reserve_x: self.token_amount_x as int,
            reserve_y: self.token_amount_y as int,
            invariant_k: self.k_factor as int,
        }
    }
}

impl Pool {
    #[verifier::type_invariant]
    spec fn inv(self) -> bool {
        self@.wf()
    }

    /// Creates the pair state for two different assets with positive
    /// reserves whose product fits in 128 signed bits.
    pub fn new(token_x: AssetId, token_y: AssetId, amount_x: i128, amount_y: i128) -> (result: Result<
        Pool,
        SwapError,
    >)
        ensures
            match result {
                Ok(pool) => PairState::create(token_x, token_y, amount_x as int, amount_y as int)
                    == Ok::<PairState, SwapError>(pool@) && pool@.wf(),
                Err(e) => PairState::create(token_x, token_y, amount_x as int, amount_y as int)
                    == Err::<PairState, SwapError>(e),
            },
    {
        if token_x == token_y || amount_x <= 0 || amount_y <= 0 {
            return Err(SwapError::InvalidInput);
        }
        match amount_x.checked_mul(amount_y) {
            Some(k_factor) => Ok(
                Pool { token_x, token_y, token_amount_x: amount_x, token_amount_y: amount_y, k_factor },
            ),
            None => {
                proof {
                    lemma_mul_strictly_positive(amount_x as int, amount_y as int);
                }
                Err(SwapError::ArithmeticOverflow)
            },
        }
    }

    /// Rebuilds the pair state from a record as the host persisted it.
    ///
    /// The record is accepted exactly when it is well-formed: two different
    /// assets, two positive reserves, and `k_factor` their product. Anything
    /// else is invalid input.
    pub fn from_record(
        token_x: AssetId,
        token_y: AssetId,
        amount_x: i128,
        amount_y: i128,
        k_factor: i128,
    ) -> (result: Result<Pool, SwapError>)
        ensures
            ({
                let record = PairState {
                    token_x,
                    token_y,
                    reserve_x: amount_x as int,
                    reserve_y: amount_y as int,
                    invariant_k: k_factor as int,
                };
                match result {
                    Ok(pool) => record.wf() && pool@ == record,
                    Err(e) => !record.wf() && e == SwapError::InvalidInput,
                }
            }),
    {
        if token_x == token_y || amount_x <= 0 || amount_y <= 0 {
            return Err(SwapError::InvalidInput);
        }
        match amount_x.checked_mul(amount_y) {
            Some(product) => {
                if product == k_factor {
                    Ok(Pool { token_x, token_y, token_amount_x: amount_x, token_amount_y: amount_y, k_factor })
                } else {
                    Err(SwapError::InvalidInput)
                }
            },
            None => Err(SwapError::InvalidInput),
        }
    }

    /// The first asset.
    pub fn token_x(&self) -> (token: AssetId)
        ensures
            token == self@.token_x,
    {
        self.token_x
    }

    /// The second asset.
    pub fn token_y(&self) -> (token: AssetId)
        ensures
            token == self@.token_y,
    {
        self.token_y
    }

    /// The reserve held of the first asset.
    pub fn token_amount_x(&self) -> (amount: i128)
        ensures
            amount == self@.reserve_x,
            amount > 0,
    {
        proof {
            use_type_invariant(self);
        }
        self.token_amount_x
    }

    /// The reserve held of the second asset.
    pub fn token_amount_y(&self) -> (amount: i128)
        ensures
            amount == self@.reserve_y,
            amount > 0,
    {
        proof {
            use_type_invariant(self);
        }
        self.token_amount_y
    }

    /// The product of the two reserves.
    pub fn k_factor(&self) -> (k: i128)
        ensures
            k == self@.invariant_k,
            k == self@.reserve_x * self@.reserve_y,
    {
        proof {
            use_type_invariant(self);
        }
        self.k_factor
    }
}

/// Prices a trade of `amount_in` against the pool without changing it.
///
/// `is_in_x` says that the trader supplies the first asset and receives the
/// second; otherwise it is the other way round.
pub fn calculate_swap_amount_out(pool: &Pool, is_in_x: bool, amount_in: i128) -> (result: Result<
    i128,
    SwapError,
>)
    ensures
        widen(result) == pool@.quote(is_in_x, amount_in as int),
{
    if amount_in < 0 {
        return Err(SwapError::InvalidInput);
    }
    let (reserve_in, reserve_out) = if is_in_x {
        (pool.token_amount_x, pool.token_amount_y)
    } else {
        (pool.token_amount_y, pool.token_amount_x)
    };
    proof {
        use_type_invariant(pool);
        lemma_mul_is_commutative(reserve_in as int, reserve_out as int);
        lemma_mul_strictly_positive(reserve_in as int, reserve_out as int);
        lemma_reserve_out_after(reserve_in as int, reserve_out as int, amount_in as int);
    }
    let new_reserve_in = match reserve_in.checked_add(amount_in) {
        Some(sum) => sum,
        None => {
            return Err(SwapError::ArithmeticOverflow);
        },
    };
    let new_reserve_out = match pool.k_factor.checked_div(new_reserve_in) {
        Some(quotient) => quotient,
        None => {
            return Err(SwapError::ArithmeticOverflow);
        },
    };
    assert(new_reserve_out == reserve_out_after(reserve_in as int, reserve_out as int, amount_in as int));
    let amount_out = match reserve_out.checked_sub(new_reserve_out) {
        Some(difference) => difference,
        None => {
            return Err(SwapError::ArithmeticOverflow);
        },
    };
    if amount_out >= reserve_out {
        return Err(SwapError::InsufficientLiquidity);
    }
    Ok(amount_out)
}

/// The pool engine: a handle on the one pair state that a pool persists,
/// which is absent until the pool has been initialized.
#[derive(Copy, Clone, Debug, PartialEq, Eq, Structural)]
pub struct SwapContract {
    pool: Option<Pool>,
}

impl View for SwapContract {
    type V = Option<PairState>;

    closed spec fn view(&self) -> Option<PairState> {
        match self.pool {
            Some(pool) => Some(pool@),
            None => None,
        }
    }
}

impl SwapContract {
    /// A pool that has not been initialized.
    pub fn new() -> (contract: SwapContract)
        ensures
            contract@ is None,
    {
        SwapContract { pool: None }
    }

    /// A pool that holds the given pair state, as read back from where the
    /// host keeps it.
    pub fn restore(pool: Pool) -> (contract: SwapContract)
        ensures
            contract@ == Some(pool@),
    {
        SwapContract { pool: Some(pool) }
    }

    /// Initializes a pool for two different assets, seeded with the given
    /// positive reserves, and computes its invariant.
    ///
    /// The same asset given twice or a non-positive reserve is invalid input;
    /// a product of the reserves beyond 128 signed bits is an overflow.
    pub fn initialize(token_x: AssetId, token_y: AssetId, amount_x: i128, amount_y: i128) -> (result:
        Result<SwapContract, SwapError>)
        ensures
            match result {
                Ok(contract) => contract@ is Some && PairState::create(
                    token_x,
                    token_y,
                    amount_x as int,
                    amount_y as int,
                ) == Ok::<PairState, SwapError>(contract@.unwrap()) && contract@.unwrap().wf(),
                Err(e) => PairState::create(token_x, token_y, amount_x as int, amount_y as int)
                    == Err::<PairState, SwapError>(e),
            },
    {
        match Pool::new(token_x, token_y, amount_x, amount_y) {
            Ok(pool) => Ok(SwapContract { pool: Some(pool) }),
            Err(e) => Err(e),
        }
    }

    /// The pair state as it stands, or `NotInitialized`.
    pub fn get_pool_info(&self) -> (result: Result<Pool, SwapError>)
        ensures
            match result {
                Ok(pool) => self@ == Some(pool@) && pool@.wf(),
                Err(e) => self@ is None && e == SwapError::NotInitialized,
            },
    {
        match self.pool {
            Some(pool) => {
                proof {
                    use_type_invariant(&pool);
                }
                Ok(pool)
            },
            None => Err(SwapError::NotInitialized),
        }
    }

    /// Prices a trade of `amount_in` without changing the pool.
    ///
    /// A negative amount is refused before the pool is looked at.
    pub fn get_quote(&self, is_in_x: bool, amount_in: i128) -> (result: Result<i128, SwapError>)
        ensures
            widen(result) == pool_quote(self@, is_in_x, amount_in as int),
    {
        if amount_in < 0 {
            return Err(SwapError::InvalidInput);
        }
        match self.pool {
            Some(pool) => calculate_swap_amount_out(&pool, is_in_x, amount_in),
            None => Err(SwapError::NotInitialized),
        }
    }

    /// Names the transfers that a trade of `amount_in` needs: which asset to
    /// pull from the trader, which to push to the trader, and how much of
    /// each. Fails exactly where the quote fails, and changes nothing.
    pub fn plan_swap(&self, is_in_x: bool, amount_in: i128) -> (result: Result<SwapPlan, SwapError>)
        ensures
            match result {
                Ok(plan) => {
                    &&& self@ is Some
                    &&& pool_quote(self@, is_in_x, amount_in as int) == Ok::<int, SwapError>(
                        plan.amount_out as int,
                    )
                    &&& plan.amount_in == amount_in
                    &&& plan.token_in == self@.unwrap().token_in(is_in_x)
                    &&& plan.token_out == self@.unwrap().token_out(is_in_x)
                },
                Err(e) => pool_quote(self@, is_in_x, amount_in as int) == Err::<int, SwapError>(e),
            },
    {
        if amount_in < 0 {
            return Err(SwapError::InvalidInput);
        }
        let pool = match self.pool {
            Some(pool) => pool,
            None => {
                return Err(SwapError::NotInitialized);
            },
        };
        let amount_out = match calculate_swap_amount_out(&pool, is_in_x, amount_in) {
            Ok(amount) => amount,
            Err(e) => {
                return Err(e);
            },
        };
        let (token_in, token_out) = if is_in_x {
            (pool.token_x, pool.token_y)
        } else {
            (pool.token_y, pool.token_x)
        };
        Ok(SwapPlan { token_in, token_out, amount_in, amount_out })
    }

    /// Executes a trade of `amount_in`, given the host's report on the
    /// transfers of `plan_swap`, and returns the amount paid out.
    ///
    /// The trade is priced as `get_quote` prices it. Where the quote fails, or
    /// the report is not `Settled`, the swap fails and the pool is left as it
    /// was. Otherwise the input reserve grows by `amount_in`, the output
    /// reserve shrinks by the amount paid out, and the invariant becomes the
    /// product of the new reserves.
    pub fn swap(&mut self, is_in_x: bool, amount_in: i128, report: LedgerReport) -> (result: Result<
        i128,
        SwapError,
    >)
        ensures
            widen(result) == pool_swap(old(self)@, is_in_x, amount_in as int, report),
            final(self)@ == pool_after_swap(old(self)@, is_in_x, amount_in as int, report),
            result is Err ==> final(self)@ == old(self)@,
            result matches Ok(paid) ==> {
                &&& old(self)@ is Some
                &&& final(self)@ is Some
                &&& final(self)@.unwrap().wf()
                &&& 0 <= paid < old(self)@.unwrap().reserve_out(is_in_x)
                &&& final(self)@.unwrap().reserve_x * final(self)@.unwrap().reserve_y <= old(
                    self,
                )@.unwrap().reserve_x * old(self)@.unwrap().reserve_y
            },
    {
        if amount_in < 0 {
            return Err(SwapError::InvalidInput);
        }
        let pool = match self.pool {
            Some(pool) => pool,
            None => {
                return Err(SwapError::NotInitialized);
            },
        };
        let amount_out = match calculate_swap_amount_out(&pool, is_in_x, amount_in) {
            Ok(amount) => amount,
            Err(e) => {
                return Err(e);
            },
        };
        match report {
            LedgerReport::Settled => {},
            LedgerReport::Unauthorized => {
                return Err(SwapError::Unauthorized);
            },
            LedgerReport::TransferFailed => {
                return Err(SwapError::LedgerTransferFailed);
            },
        }
        proof {
            use_type_invariant(&pool);
            lemma_no_drain(pool@, is_in_x, amount_in as int);
            lemma_swap_preserves_wf(pool@, is_in_x, amount_in as int);
            lemma_swap_never_raises_product(pool@, is_in_x, amount_in as int);
        }
        let (grown, shrunk) = if is_in_x {
            (pool.token_amount_x.checked_add(amount_in), pool.token_amount_y.checked_sub(amount_out))
        } else {
            (pool.token_amount_y.checked_add(amount_in), pool.token_amount_x.checked_sub(amount_out))
        };
        let (token_amount_x, token_amount_y) = match (grown, shrunk) {
            (Some(reserve_in), Some(reserve_out)) => if is_in_x {
                (reserve_in, reserve_out)
            } else {
                (reserve_out, reserve_in)
            },
            _ => {
                return Err(SwapError::ArithmeticOverflow);
            },
        };
        let k_factor = match token_amount_x.checked_mul(token_amount_y) {
            Some(product) => product,
            None => {
                return Err(SwapError::ArithmeticOverflow);
            },
        };
        self.pool = Some(
            Pool { token_x: pool.token_x, token_y: pool.token_y, token_amount_x, token_amount_y, k_factor },
        );
        Ok(amount_out)
    }
}

} // verus!
