use crema_clmm::bn::{full_mul_u128, Downcast, LowHigh, Shift, Upcast, U256};
use crema_clmm::full_math::{DivRoundUpIf, FullMath};

fn wide(hi: u128, lo: u128) -> U256 {
    U256 { lo, hi }
}

#[test]
fn full_product_of_largest_halves() {
    let p = full_mul_u128(u128::MAX, u128::MAX);
    // (2^128 - 1)^2 = 2^256 - 2^129 + 1
    assert_eq!(p, wide(u128::MAX - 1, 1));
    assert_eq!(full_mul_u128(1u128 << 64, 1u128 << 64), wide(1, 0));
    assert_eq!(full_mul_u128(123_456_789, 987_654_321), wide(0, 123_456_789u128 * 987_654_321));
}

#[test]
fn division_with_remainder() {
    let n = wide(5, 7);
    let (q, r) = n.div_mod(wide(0, 2));
    assert_eq!(q, wide(2, 3 + (1u128 << 127)));
    assert_eq!(r, wide(0, 1));
    let (q, r) = n.div_mod(wide(5, 7));
    assert_eq!((q, r), (wide(0, 1), wide(0, 0)));
    let (q, r) = wide(0, 9).div_mod(wide(1, 0));
    assert_eq!((q, r), (wide(0, 0), wide(0, 9)));
    let (q, r) = wide(u128::MAX, u128::MAX).div_mod(wide(0, 3));
    assert_eq!(q, wide(u128::MAX / 3, u128::MAX / 3));
    assert_eq!(r, wide(0, 0));
}

#[test]
fn word_and_bit_shifts() {
    let x = wide(0, 1);
    assert_eq!(x.shift_word_left(), wide(0, 1u128 << 64));
    assert_eq!(x.shift_left(200), wide(1u128 << 72, 0));
    assert_eq!(x.shift_left(256), wide(0, 0));
    assert_eq!(wide(1u128 << 127, 0).shift_left(1), wide(0, 0));
    assert_eq!(wide(1, 0).shift_right(1), wide(0, 1u128 << 127));
    assert_eq!(wide(1, 0).shift_word_right(), wide(0, 1u128 << 64));
    assert_eq!(wide(u128::MAX, 0).shift_right(300), wide(0, 0));
    assert_eq!(wide(1u128 << 64, 0).checked_shift_word_left(), None);
    assert_eq!(wide(1, 0).checked_shift_word_left(), Some(wide(1u128 << 64, 0)));
}

#[test]
fn narrowing() {
    assert_eq!(wide(0, 5).checked_as_u128(), Some(5));
    assert_eq!(wide(1, 5).checked_as_u128(), None);
    assert_eq!(wide(0, 1u128 << 64).checked_as_u64(), None);
    assert_eq!(wide(0, u64::MAX as u128).as_u64(), u64::MAX);
    assert!(wide(0, 0).is_zero());
    assert!(!wide(1, 0).is_zero());
    assert_eq!(7u128.as_u256(), wide(0, 7));
}

#[test]
fn words_of_a_u128() {
    let x: u128 = (3u128 << 64) | 9;
    assert_eq!(x.lo(), 9);
    assert_eq!(x.hi(), 3);
    assert_eq!(x.lo_u128(), 9);
    assert_eq!(x.hi_u128(), 3);
    assert_eq!(u128::from_hi_lo(3, 9), x);
}

#[test]
fn mul_div_rounding() {
    assert_eq!(10u128.mul_div_floor(10, 3), 33);
    assert_eq!(10u128.mul_div_ceil(10, 3), 34);
    assert_eq!(10u128.mul_div_round(10, 3), 33);
    assert_eq!(10u128.mul_div_round(15, 4), 38);
    assert_eq!(u128::MAX.mul_div_floor(u128::MAX, u128::MAX), u128::MAX);
    assert_eq!(10u64.mul_div_floor(10, 3), 33);
    assert_eq!(10u64.mul_div_ceil(10, 3), 34);
    assert_eq!(10u64.mul_div_round(15, 4), 38);
    assert_eq!(u64::MAX.full_mul(u64::MAX), (u64::MAX as u128) * (u64::MAX as u128));
}

#[test]
fn mul_shift() {
    assert_eq!(3u128.mul_shift_right(1u128 << 64, 64), 3);
    assert_eq!((1u128 << 100).mul_shift_right(1u128 << 100, 128), 1u128 << 72);
    assert_eq!(3u128.mul_shift_left(5, 4), 240);
    assert_eq!(6u64.mul_shift_right(7, 1), 21);
    assert_eq!(6u64.mul_shift_right(7, 200), 0);
    assert_eq!(6u64.mul_shift_left(7, 2), 168);
}

#[test]
fn division_rounding_up_on_request() {
    assert_eq!(7u128.checked_div_round_up_if(2, true), Some(4));
    assert_eq!(7u128.checked_div_round_up_if(2, false), Some(3));
    assert_eq!(8u128.checked_div_round_up_if(2, true), Some(4));
    assert_eq!(7u128.checked_div_round_up_if(0, true), None);
    assert_eq!(wide(1, 1).checked_div_round_up_if(wide(1, 0), true), Some(wide(0, 2)));
    assert_eq!(wide(1, 1).checked_div_round_up_if(wide(0, 0), false), None);
}
