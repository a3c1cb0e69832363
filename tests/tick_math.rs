use crema_clmm::error::ErrorCode;
use crema_clmm::tick_math::{
    get_sqrt_price_at_tick, get_tick_at_sqrt_price, MAX_SQRT_PRICE_X64, MAX_TICK,
    MIN_SQRT_PRICE_X64, MIN_TICK,
};

fn price(t: i32) -> u128 {
    get_sqrt_price_at_tick(t).unwrap()
}

fn sample_ticks() -> Vec<i32> {
    let mut ticks: Vec<i32> = (MIN_TICK..=MAX_TICK).step_by(37).collect();
    for t in [MIN_TICK, MIN_TICK + 1, -2, -1, 0, 1, 2, MAX_TICK - 1, MAX_TICK] {
        ticks.push(t);
    }
    ticks
}

#[test]
fn tick_zero_is_one() {
    assert_eq!(price(0), 1u128 << 64);
}

#[test]
fn range_ends_match_price_bounds() {
    assert_eq!(price(MIN_TICK), MIN_SQRT_PRICE_X64);
    assert_eq!(price(MAX_TICK), MAX_SQRT_PRICE_X64);
}

#[test]
fn ticks_outside_range_are_rejected() {
    assert_eq!(get_sqrt_price_at_tick(MAX_TICK + 1), Err(ErrorCode::SqrtPriceOutOfBounds));
    assert_eq!(get_sqrt_price_at_tick(MIN_TICK - 1), Err(ErrorCode::SqrtPriceOutOfBounds));
    assert_eq!(get_sqrt_price_at_tick(i32::MIN), Err(ErrorCode::SqrtPriceOutOfBounds));
}

#[test]
fn prices_outside_bounds_are_rejected() {
    assert_eq!(get_tick_at_sqrt_price(MIN_SQRT_PRICE_X64 - 1), Err(ErrorCode::SqrtPriceOutOfBounds));
    assert_eq!(get_tick_at_sqrt_price(MAX_SQRT_PRICE_X64 + 1), Err(ErrorCode::SqrtPriceOutOfBounds));
    assert_eq!(get_tick_at_sqrt_price(0), Err(ErrorCode::SqrtPriceOutOfBounds));
    assert_eq!(get_tick_at_sqrt_price(MIN_SQRT_PRICE_X64), Ok(MIN_TICK));
    assert_eq!(get_tick_at_sqrt_price(MAX_SQRT_PRICE_X64), Ok(MAX_TICK));
}

#[test]
fn round_trip_on_sampled_ticks() {
    for t in sample_ticks() {
        assert_eq!(get_tick_at_sqrt_price(price(t)).unwrap(), t, "tick {}", t);
    }
}

#[test]
fn price_strictly_increases_on_sampled_ticks() {
    for t in sample_ticks() {
        if t < MAX_TICK {
            assert!(price(t) < price(t + 1), "tick {}", t);
        }
    }
}

#[test]
fn tick_at_price_is_a_floor() {
    let mut p = MIN_SQRT_PRICE_X64;
    while p < MAX_SQRT_PRICE_X64 {
        let t = get_tick_at_sqrt_price(p).unwrap();
        assert!(price(t) <= p, "price {}", p);
        if t < MAX_TICK {
            assert!(price(t + 1) > p, "price {}", p);
        }
        p = p + p / 977 + 12345;
    }
}

#[test]
fn known_prices() {
    // sqrt(1.0001) and 1 / sqrt(1.0001) in Q64.64.
    assert_eq!(price(1), 18447666387855959850);
    assert_eq!(price(-1), 18445821805675392311);
}

#[test]
fn round_trip_and_order_on_every_tick() {
    let mut previous = 0u128;
    for t in MIN_TICK..=MAX_TICK {
        let p = price(t);
        assert!(p > previous, "tick {}", t);
        assert_eq!(get_tick_at_sqrt_price(p).unwrap(), t, "tick {}", t);
        if p > MIN_SQRT_PRICE_X64 {
            assert_eq!(get_tick_at_sqrt_price(p - 1).unwrap(), t - 1, "tick {}", t);
        }
        previous = p;
    }
}
