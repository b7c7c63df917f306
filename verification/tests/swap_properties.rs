use pool::contract::{calculate_swap_amount_out, Pool, SwapContract};
use pool::error::SwapError;
use pool::ledger::{AssetId, LedgerReport};

fn asset(n: u128) -> AssetId {
    AssetId { hi: 0, lo: n }
}

fn pool_of(amount_x: i128, amount_y: i128) -> SwapContract {
    SwapContract::initialize(asset(1), asset(2), amount_x, amount_y).unwrap()
}

const AMOUNTS: [i128; 9] = [0, 1, 2, 3, 7, 50, 999, 50000, 123456789];

#[test]
fn product_of_reserves_never_grows() {
    for (x, y) in [(100000, 100000), (7, 11), (1, 10), (3000, 1000), (1, 1)] {
        for amount_in in AMOUNTS {
            for is_in_x in [true, false] {
                let mut contract = pool_of(x, y);
                let before = contract.get_pool_info().unwrap();
                if contract.swap(is_in_x, amount_in, LedgerReport::Settled).is_ok() {
                    let after = contract.get_pool_info().unwrap();
                    let product = after.token_amount_x() * after.token_amount_y();
                    assert!(product <= before.token_amount_x() * before.token_amount_y());
                    assert_eq!(after.k_factor(), product);
                    let new_reserve_in = if is_in_x { after.token_amount_x() } else { after.token_amount_y() };
                    assert_eq!(product, before.k_factor() - before.k_factor() % new_reserve_in);
                }
            }
        }
    }
}

#[test]
fn reserves_stay_positive_through_a_run_of_swaps() {
    let mut contract = pool_of(100000, 100000);
    let mut is_in_x = true;
    for amount_in in [50000, 1, 99999, 10_000_000_000, 0, 77, 123456, 5, 400000, 31] {
        let _ = contract.swap(is_in_x, amount_in, LedgerReport::Settled);
        let pool = contract.get_pool_info().unwrap();
        assert!(pool.token_amount_x() > 0);
        assert!(pool.token_amount_y() > 0);
        assert_eq!(pool.k_factor(), pool.token_amount_x() * pool.token_amount_y());
        is_in_x = !is_in_x;
    }
}

#[test]
fn swap_pays_exactly_what_was_quoted() {
    for (x, y) in [(100000, 100000), (7, 11), (1, 10), (3000, 1000)] {
        for amount_in in AMOUNTS {
            for is_in_x in [true, false] {
                let mut contract = pool_of(x, y);
                let quoted = contract.get_quote(is_in_x, amount_in);
                let planned = contract.plan_swap(is_in_x, amount_in).map(|plan| plan.amount_out);
                let paid = contract.swap(is_in_x, amount_in, LedgerReport::Settled);
                assert_eq!(quoted, paid);
                assert_eq!(planned, paid);
            }
        }
    }
}

#[test]
fn paid_amount_is_less_than_the_output_reserve() {
    for (x, y) in [(100000, 100000), (7, 11), (1, 10), (3000, 1000), (1, 1)] {
        for amount_in in AMOUNTS {
            let contract = pool_of(x, y);
            if let Ok(paid) = contract.get_quote(true, amount_in) {
                assert!(0 <= paid && paid < y);
            }
            if let Ok(paid) = contract.get_quote(false, amount_in) {
                assert!(0 <= paid && paid < x);
            }
        }
    }
}

#[test]
fn every_failure_leaves_the_state_as_it_was() {
    let attempts = [
        (true, -1, LedgerReport::Settled, SwapError::InvalidInput),
        (true, i128::MAX, LedgerReport::Settled, SwapError::ArithmeticOverflow),
        (false, 10_000_000_000, LedgerReport::Settled, SwapError::InsufficientLiquidity),
        (false, 50000, LedgerReport::Unauthorized, SwapError::Unauthorized),
        (true, 50000, LedgerReport::TransferFailed, SwapError::LedgerTransferFailed),
    ];
    for (is_in_x, amount_in, report, error) in attempts {
        let mut contract = pool_of(100000, 100000);
        let before = contract;
        assert_eq!(contract.swap(is_in_x, amount_in, report), Err(error));
        assert_eq!(contract, before);
    }
}

#[test]
fn larger_amount_in_never_pays_less() {
    for (x, y) in [(100000, 100000), (7, 11), (1, 10), (3000, 1000)] {
        let pool = Pool::new(asset(1), asset(2), x, y).unwrap();
        for is_in_x in [true, false] {
            let mut last = 0;
            for amount_in in 0..200 {
                match calculate_swap_amount_out(&pool, is_in_x, amount_in) {
                    Ok(paid) => {
                        assert!(paid >= last);
                        last = paid;
                    }
                    Err(error) => {
                        assert_eq!(error, SwapError::InsufficientLiquidity);
                        // Once refused, every larger amount is refused too.
                        assert!(calculate_swap_amount_out(&pool, is_in_x, amount_in + 1).is_err());
                    }
                }
            }
        }
    }
    let pool = Pool::new(asset(1), asset(2), 100000, 100000).unwrap();
    assert_eq!(calculate_swap_amount_out(&pool, true, 50000), Ok(33334));
    assert_eq!(calculate_swap_amount_out(&pool, true, 100000), Ok(50000));
}

#[test]
fn marginal_output_diminishes_up_to_one_unit() {
    let pool = Pool::new(asset(1), asset(2), 1, 10).unwrap();
    let paid: Vec<i128> = (0..10).map(|a| calculate_swap_amount_out(&pool, true, a).unwrap()).collect();
    assert_eq!(paid, vec![0, 5, 7, 8, 8, 9, 9, 9, 9, 9]);
    // Rounding lets a later unit buy more than an earlier one: 8 -> 8 -> 9.
    assert_eq!(paid[4] - paid[3], 0);
    assert_eq!(paid[5] - paid[4], 1);
    for earlier in 0..9 {
        for later in earlier..9 {
            for extra in 0..(9 - later) {
                let late = paid[later + extra] - paid[later];
                let early = paid[earlier + extra] - paid[earlier];
                assert!(late <= early + 1);
            }
        }
    }
}

#[test]
fn one_trade_pays_no_more_than_its_parts() {
    for (x, y) in [(100000, 100000), (7, 11), (1, 10), (3000, 1000)] {
        let pool = Pool::new(asset(1), asset(2), x, y).unwrap();
        for first in 0..40 {
            for second in 0..40 {
                let whole = calculate_swap_amount_out(&pool, true, first + second);
                let a = calculate_swap_amount_out(&pool, true, first);
                let b = calculate_swap_amount_out(&pool, true, second);
                if let (Ok(whole), Ok(a), Ok(b)) = (whole, a, b) {
                    assert!(whole <= a + b);
                }
            }
        }
    }
    let pool = Pool::new(asset(1), asset(2), 100000, 100000).unwrap();
    assert_eq!(calculate_swap_amount_out(&pool, true, 25000), Ok(20000));
    assert_eq!(calculate_swap_amount_out(&pool, true, 50000), Ok(33334));
}
