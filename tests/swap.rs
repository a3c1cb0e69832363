use crema_clmm::clmm_math::{
    compute_swap_step, get_delta_a, get_delta_b, get_liquidity_from_a, get_liquidity_from_amount,
    get_liquidity_from_b, get_next_sqrt_price_a_up, get_next_sqrt_price_b_down,
};
use crema_clmm::clmmpool::Clmmpool;
use crema_clmm::error::ErrorCode;
use crema_clmm::fetcher::{PoolInfo, TickInfo};
use crema_clmm::quote::quote_exact_in;
use crema_clmm::clmm_math::SwapStepResult;
use crema_clmm::simulate_swap::{compute_swap, ComputeSwapResult};
use crema_clmm::tick::Tick;
use crema_clmm::tick_array_map::TickArrayMap;
use crema_clmm::tick_math::{get_sqrt_price_at_tick, MAX_SQRT_PRICE_X64, MIN_SQRT_PRICE_X64};

const ONE: u128 = 1u128 << 64;

fn price(t: i32) -> u128 {
    get_sqrt_price_at_tick(t).unwrap()
}

fn tick(index: i32, liquidity_net: i128) -> TickInfo {
    TickInfo {
        is_initialized: true,
        index,
        sqrt_price: price(index),
        liquidity_net,
        liquidity_gross: liquidity_net.unsigned_abs(),
        fee_growth_outside_a: 0,
        fee_growth_outside_b: 0,
        reward_growth_outside: [0; 3],
    }
}

fn pool_info(liquidity: u128, fee_rate: u16, ticks: Vec<TickInfo>) -> PoolInfo {
    let mut pool = Clmmpool::default();
    pool.token_a = [1u8; 32];
    pool.token_b = [2u8; 32];
    pool.tick_spacing = 10;
    pool.fee_rate = fee_rate;
    pool.liquidity = liquidity;
    pool.current_sqrt_price = ONE;
    pool.current_tick_index = 0;
    PoolInfo { pool, tick_array_map: TickArrayMap::default(), tick_arrays: vec![], ticks }
}

fn ceil_div(n: u128, d: u128) -> u128 {
    (n + d - 1) / d
}

#[test]
fn delta_b_rounds_as_asked() {
    // liquidity 9 over a price move of 0.5 holds 4.5 of token B.
    let p1 = ONE + ONE / 2;
    assert_eq!(get_delta_b(ONE, p1, 9, false), Ok(4));
    assert_eq!(get_delta_b(p1, ONE, 9, true), Ok(5));
    assert_eq!(get_delta_b(ONE, ONE, 9, true), Ok(0));
}

#[test]
fn delta_a_rounds_as_asked() {
    // liquidity 10 between prices 1 and 2 holds 10 * (1 - 1/2) = 5 of token A.
    assert_eq!(get_delta_a(ONE, 2 * ONE, 10, false), Ok(5));
    // liquidity 10 between prices 1 and 3 holds 10 * 2 / 3 = 6.67 of token A.
    assert_eq!(get_delta_a(ONE, 3 * ONE, 10, false), Ok(6));
    assert_eq!(get_delta_a(3 * ONE, ONE, 10, true), Ok(7));
    assert_eq!(get_delta_a(0, ONE, 10, true), Err(ErrorCode::DivisorIsZero));
    assert_eq!(get_delta_a(ONE, u128::MAX, u128::MAX, true), Err(ErrorCode::MultiplicationOverflow));
}

#[test]
fn liquidity_from_amounts_inverts_deltas() {
    assert_eq!(get_liquidity_from_a(ONE, 2 * ONE, 5, false), Ok(10));
    assert_eq!(get_liquidity_from_b(ONE, 2 * ONE, 7, false), Ok(7));
    assert_eq!(get_liquidity_from_b(ONE, ONE, 7, false), Err(ErrorCode::DivisorIsZero));
    assert_eq!(get_liquidity_from_a(ONE, ONE, 7, false), Err(ErrorCode::DivisorIsZero));
    assert_eq!(get_liquidity_from_b(ONE, ONE + 1, u128::MAX, false), Err(ErrorCode::IntegerDowncastOverflow));
    assert_eq!(
        get_liquidity_from_a(u128::MAX, u128::MAX, u128::MAX, false),
        Err(ErrorCode::MultiplicationOverflow)
    );
}

#[test]
fn liquidity_from_amount_checks_the_fixed_token() {
    assert_eq!(
        get_liquidity_from_amount(-100, 100, 200, price(200), 1000, true),
        Err(ErrorCode::InvalidFixedTokenType)
    );
    assert_eq!(
        get_liquidity_from_amount(-100, 100, -200, price(-200), 1000, false),
        Err(ErrorCode::InvalidFixedTokenType)
    );
    let (liquidity, a, b) = get_liquidity_from_amount(-100, 100, 200, price(200), 1000, false).unwrap();
    assert_eq!((a, b), (0, 1000));
    assert_eq!(liquidity, get_liquidity_from_b(price(-100), price(100), 1000, false).unwrap());
}

#[test]
fn next_price_from_token_a() {
    // 10 of token A into liquidity 10 at price 1 halves the price.
    assert_eq!(get_next_sqrt_price_a_up(ONE, 10, 10, true), Ok(ONE / 2));
    assert_eq!(get_next_sqrt_price_a_up(ONE, 10, 0, true), Ok(ONE));
    // 5 of token A out of liquidity 10 at price 1 doubles it.
    assert_eq!(get_next_sqrt_price_a_up(ONE, 10, 5, false), Ok(2 * ONE));
    assert_eq!(get_next_sqrt_price_a_up(ONE, 10, 20, false), Err(ErrorCode::TokenAmountMaxExceeded));
    assert_eq!(get_next_sqrt_price_a_up(ONE, 10, 10, false), Err(ErrorCode::DivisorIsZero));
    assert_eq!(
        get_next_sqrt_price_a_up(MIN_SQRT_PRICE_X64, 1, 1 << 60, true),
        Err(ErrorCode::TokenAmountMinSubceeded)
    );
}

#[test]
fn next_price_from_token_b() {
    assert_eq!(get_next_sqrt_price_b_down(ONE, 10, 5, true), Ok(ONE + ONE / 2));
    assert_eq!(get_next_sqrt_price_b_down(ONE, 10, 5, false), Ok(ONE / 2));
    assert_eq!(get_next_sqrt_price_b_down(ONE, 0, 5, true), Err(ErrorCode::DivisorIsZero));
    assert_eq!(get_next_sqrt_price_b_down(ONE, 10, 10, false), Err(ErrorCode::SqrtPriceOutOfBounds));
    assert_eq!(
        get_next_sqrt_price_b_down(MAX_SQRT_PRICE_X64, 1, 1, true),
        Err(ErrorCode::SqrtPriceOutOfBounds)
    );
}

#[test]
fn step_with_far_target_uses_the_whole_input() {
    let liquidity: u128 = 1_000_000_000_000;
    let step = compute_swap_step(ONE, price(-100_000), liquidity, 1_000_000, 3000, true).unwrap();
    assert_eq!(step.amount_in, 997_000);
    assert_eq!(step.fee_amount, 3000);
    let next = ceil_div(ONE * liquidity, liquidity + 997_000);
    assert_eq!(step.next_sqrt_price, next);
    assert_eq!(step.amount_out, liquidity * (ONE - next) / ONE);
}

#[test]
fn step_reaching_target_charges_fee_on_what_was_used() {
    let liquidity: u128 = 1_000_000;
    let target = price(-10);
    let max_in = get_delta_a(target, ONE, liquidity, true).unwrap();
    let step = compute_swap_step(ONE, target, liquidity, 1_000_000_000, 3000, true).unwrap();
    assert_eq!(step.next_sqrt_price, target);
    assert_eq!(step.amount_in, max_in);
    assert_eq!(step.fee_amount, ceil_div(max_in * 3000, 997_000));
    assert!(step.amount_in + step.fee_amount <= 1_000_000_000);
}

#[test]
fn exact_output_step_never_exceeds_the_request() {
    let liquidity: u128 = 1_000_000_000_000;
    let step = compute_swap_step(ONE, price(-100_000), liquidity, 1000, 3000, false).unwrap();
    assert_eq!(step.amount_out, 1000);
    assert!(step.amount_in > 1000);
    assert_eq!(step.fee_amount, ceil_div(step.amount_in * 3000, 997_000));
    let small = compute_swap_step(ONE, price(-1), 1000, 1_000_000, 3000, false).unwrap();
    assert_eq!(small.next_sqrt_price, price(-1));
    assert!(small.amount_out <= 1_000_000);
}

#[test]
fn exact_input_steps_stay_within_the_input() {
    for amount in [1u128, 7, 1000, 999_999, 123_456_789] {
        for fee in [0u16, 1, 3000, 65535] {
            let s = compute_swap_step(ONE, price(-50), 10_000_000, amount, fee, true).unwrap();
            assert!(s.amount_in + s.fee_amount <= amount);
        }
    }
}

#[test]
fn zero_liquidity_step_jumps_to_target() {
    let step = compute_swap_step(ONE, price(-30), 0, 1000, 3000, true).unwrap();
    assert_eq!(step.next_sqrt_price, price(-30));
    assert_eq!((step.amount_in, step.amount_out, step.fee_amount), (0, 0, 0));
}

#[test]
fn scenario_single_range_swap() {
    let liquidity: u128 = 1_000_000_000_000;
    let info = pool_info(liquidity, 3000, vec![tick(-100_000, 0), tick(100_000, 0)]);
    let result = compute_swap(info.clone(), true, true, 1_000_000).unwrap();
    assert_eq!(result.fee_amount, 3000);
    assert_eq!(result.amount_in, 1_000_000);
    let next = ceil_div(ONE * liquidity, liquidity + 997_000);
    assert_eq!(result.next_sqrt_price, next);
    assert_eq!(result.amount_out, liquidity * (ONE - next) / ONE);
    let quote = quote_exact_in(info, &[1u8; 32], 1_000_000).unwrap();
    assert!(quote.a_to_b);
    assert!(!quote.not_enough_liquidity);
    assert_eq!(quote.in_amount, 1_000_000);
    assert_eq!(quote.fee_amount, 3000);
    assert_eq!(quote.out_amount as u128, result.amount_out);
}

#[test]
fn scenario_no_liquidity() {
    let info = pool_info(0, 3000, vec![tick(-200, 0), tick(-100, 0), tick(100, 0)]);
    for (mint, amount) in [([1u8; 32], 5000u64), ([2u8; 32], 1u64)] {
        let quote = quote_exact_in(info.clone(), &mint, amount).unwrap();
        assert!(quote.not_enough_liquidity);
        assert_eq!(quote.out_amount, 0);
        assert_eq!(quote.in_amount, 0);
    }
}

#[test]
fn scenario_ticks_run_out() {
    let liquidity: u128 = 1_000_000;
    let info = pool_info(liquidity, 3000, vec![tick(-10, liquidity as i128), tick(10, -(liquidity as i128))]);
    let quote = quote_exact_in(info.clone(), &[1u8; 32], 1_000_000_000).unwrap();
    assert!(quote.not_enough_liquidity);
    let max_in = get_delta_a(price(-10), ONE, liquidity, true).unwrap();
    let fee = ceil_div(max_in * 3000, 997_000);
    assert_eq!(quote.in_amount as u128, max_in + fee);
    assert_eq!(quote.out_amount as u128, get_delta_b(price(-10), ONE, liquidity, false).unwrap());
    assert_eq!(quote.sqrt_price_after, price(-10));
}

#[test]
fn crossing_updates_the_current_tick() {
    let liquidity: u128 = 1_000_000;
    let info = pool_info(liquidity, 0, vec![tick(-10, 500_000), tick(-5, -(liquidity as i128)), tick(10, 0)]);
    let result = compute_swap(info.clone(), true, true, 1_000_000_000).unwrap();
    // Down through -5 the liquidity rises to 2_000_000, then down through -10 it falls to 1_500_000.
    let first = get_delta_a(price(-5), ONE, liquidity, true).unwrap();
    let second = get_delta_a(price(-10), price(-5), 2 * liquidity, true).unwrap();
    assert_eq!(result.amount_in, first + second);
    assert_eq!(result.fee_amount, 0);
    let exact_out = compute_swap(info, true, false, 10).unwrap();
    assert_eq!(exact_out.amount_out, 10);
}

#[test]
fn swap_direction_up_uses_ticks_above() {
    let liquidity: u128 = 1_000_000;
    let info = pool_info(liquidity, 0, vec![tick(-10, 0), tick(20, -(liquidity as i128))]);
    let quote = quote_exact_in(info, &[2u8; 32], 1_000_000_000).unwrap();
    assert!(!quote.a_to_b);
    assert!(quote.not_enough_liquidity);
    assert_eq!(quote.in_amount as u128, get_delta_b(ONE, price(20), liquidity, true).unwrap());
    assert_eq!(quote.sqrt_price_after, price(20));
}

#[test]
fn tick_helpers_round_to_spacing() {
    assert_eq!(Tick::min(10), -443630);
    assert_eq!(Tick::max(10), 443630);
    assert_eq!(Tick::min(1), -443636);
}

#[test]
fn totals_report_overflow_and_stay_unchanged() {
    let mut totals = ComputeSwapResult { amount_in: u128::MAX, amount_out: 0, fee_amount: 0, next_sqrt_price: 0 };
    let step = SwapStepResult { next_sqrt_price: ONE, amount_in: 1, amount_out: 1, fee_amount: 1 };
    assert_eq!(totals.update(&step), Err(ErrorCode::SwapAmountInOverflow));
    assert_eq!(totals.amount_out, 0);
    totals.amount_in = 0;
    totals.amount_out = u128::MAX;
    assert_eq!(totals.update(&step), Err(ErrorCode::SwapAmountOutOverflow));
    totals.amount_out = 0;
    totals.fee_amount = u128::MAX;
    assert_eq!(totals.update(&step), Err(ErrorCode::SwapFeeAmountOverflow));
    totals.fee_amount = 0;
    assert_eq!(totals.update(&step), Ok(()));
    assert_eq!((totals.amount_in, totals.amount_out, totals.fee_amount), (1, 1, 1));
}

#[test]
fn simulation_rejects_a_price_outside_the_bounds() {
    let mut stray = tick(-100, 0);
    stray.is_initialized = false;
    stray.sqrt_price = MIN_SQRT_PRICE_X64 - 1;
    let info = pool_info(0, 3000, vec![stray]);
    assert_eq!(compute_swap(info, true, true, 1000), Err(ErrorCode::SqrtPriceOutOfBounds));
}

#[test]
fn pool_below_the_lowest_usable_tick_still_quotes() {
    use_low_pool(-443_600);
    use_low_pool(-443_637);
}

fn use_low_pool(current_tick: i32) {
    let liquidity: u128 = 1_000_000_000;
    let mut info = pool_info(liquidity, 3000, vec![tick(-443_580, 0), tick(-443_000, 0)]);
    info.pool.tick_spacing = 60;
    info.pool.current_tick_index = current_tick;
    info.pool.current_sqrt_price = MIN_SQRT_PRICE_X64;
    let quote = quote_exact_in(info, &[2u8; 32], 1_000).unwrap();
    assert!(!quote.a_to_b);
    assert!(quote.in_amount > 0);
    assert!(quote.sqrt_price_after > MIN_SQRT_PRICE_X64);
}
