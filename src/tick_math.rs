//! Conversions between tick indexes and Q64.64 square-root prices.
use crate::bn::{full_mul_u128, lemma_div_pow2_add, lemma_pow2_bounds, pow64, Downcast, Shift};
use crate::error::ErrorCode;
use crate::full_math::FullMath;
use vstd::arithmetic::div_mod::*;
use vstd::arithmetic::power2::*;
use vstd::prelude::*;

verus! {

pub const MIN_TICK: i32 = -443636;

pub const MAX_TICK: i32 = -MIN_TICK;

pub const MAX_SQRT_PRICE_X64: u128 = 79226673515401279992447579055;

pub const MIN_SQRT_PRICE_X64: u128 = 4295048016;

/// 2^96: the ratio 1.0 in the Q32.96 form used for non-negative ticks.
pub const POSITIVE_ONE: u128 = 79228162514264337593543950336;

/// sqrt(1.0001) in Q32.96.
pub const POSITIVE_FACTOR_0: u128 = 79232123823359799118286999567;

/// 2^64: the ratio 1.0 in the Q64.64 form used for negative ticks.
pub const NEGATIVE_ONE: u128 = 18446744073709551616;

/// 1 / sqrt(1.0001) in Q64.64.
pub const NEGATIVE_FACTOR_0: u128 = 18445821805675392311;

// sqrt(1.0001)^(2^bit) in Q32.96, and its inverse in Q64.64, for bit 1 to 18.
pub const POSITIVE_FACTOR_1: u128 = 79236085330515764027303304731;
pub const POSITIVE_FACTOR_2: u128 = 79244008939048815603706035061;
pub const POSITIVE_FACTOR_3: u128 = 79259858533276714757314932305;
pub const POSITIVE_FACTOR_4: u128 = 79291567232598584799939703904;
pub const POSITIVE_FACTOR_5: u128 = 79355022692464371645785046466;
pub const POSITIVE_FACTOR_6: u128 = 79482085999252804386437311141;
pub const POSITIVE_FACTOR_7: u128 = 79736823300114093921829183326;
pub const POSITIVE_FACTOR_8: u128 = 80248749790819932309965073892;
pub const POSITIVE_FACTOR_9: u128 = 81282483887344747381513967011;
pub const POSITIVE_FACTOR_10: u128 = 83390072131320151908154831281;
pub const POSITIVE_FACTOR_11: u128 = 87770609709833776024991924138;
pub const POSITIVE_FACTOR_12: u128 = 97234110755111693312479820773;
pub const POSITIVE_FACTOR_13: u128 = 119332217159966728226237229890;
pub const POSITIVE_FACTOR_14: u128 = 179736315981702064433883588727;
pub const POSITIVE_FACTOR_15: u128 = 407748233172238350107850275304;
pub const POSITIVE_FACTOR_16: u128 = 2098478828474011932436660412517;
pub const POSITIVE_FACTOR_17: u128 = 55581415166113811149459800483533;
pub const POSITIVE_FACTOR_18: u128 = 38992368544603139932233054999993551;

pub const NEGATIVE_FACTOR_1: u128 = 18444899583751176498;
pub const NEGATIVE_FACTOR_2: u128 = 18443055278223354162;
pub const NEGATIVE_FACTOR_3: u128 = 18439367220385604838;
pub const NEGATIVE_FACTOR_4: u128 = 18431993317065449817;
pub const NEGATIVE_FACTOR_5: u128 = 18417254355718160513;
pub const NEGATIVE_FACTOR_6: u128 = 18387811781193591352;
pub const NEGATIVE_FACTOR_7: u128 = 18329067761203520168;
pub const NEGATIVE_FACTOR_8: u128 = 18212142134806087854;
pub const NEGATIVE_FACTOR_9: u128 = 17980523815641551639;
pub const NEGATIVE_FACTOR_10: u128 = 17526086738831147013;
pub const NEGATIVE_FACTOR_11: u128 = 16651378430235024244;
pub const NEGATIVE_FACTOR_12: u128 = 15030750278693429944;
pub const NEGATIVE_FACTOR_13: u128 = 12247334978882834399;
pub const NEGATIVE_FACTOR_14: u128 = 8131365268884726200;
pub const NEGATIVE_FACTOR_15: u128 = 3584323654723342297;
pub const NEGATIVE_FACTOR_16: u128 = 696457651847595233;
pub const NEGATIVE_FACTOR_17: u128 = 26294789957452057;
pub const NEGATIVE_FACTOR_18: u128 = 37481735321082;

/// Whether bit `bit` of `t` is set.
pub open spec fn tick_bit(t: nat, bit: nat) -> bool {
    (t / pow2(bit)) % 2 == 1
}

/// sqrt(1.0001)^(2^bit) in Q32.96, for bit 1 to 18.
pub open spec fn positive_factor(bit: nat) -> nat {
    if bit == 1 {
        POSITIVE_FACTOR_1 as nat
    } else if bit == 2 {
        POSITIVE_FACTOR_2 as nat
    } else if bit == 3 {
        POSITIVE_FACTOR_3 as nat
    } else if bit == 4 {
        POSITIVE_FACTOR_4 as nat
    } else if bit == 5 {
        POSITIVE_FACTOR_5 as nat
    } else if bit == 6 {
        POSITIVE_FACTOR_6 as nat
    } else if bit == 7 {
        POSITIVE_FACTOR_7 as nat
    } else if bit == 8 {
        POSITIVE_FACTOR_8 as nat
    } else if bit == 9 {
        POSITIVE_FACTOR_9 as nat
    } else if bit == 10 {
        POSITIVE_FACTOR_10 as nat
    } else if bit == 11 {
        POSITIVE_FACTOR_11 as nat
    } else if bit == 12 {
        POSITIVE_FACTOR_12 as nat
    } else if bit == 13 {
        POSITIVE_FACTOR_13 as nat
    } else if bit == 14 {
        POSITIVE_FACTOR_14 as nat
    } else if bit == 15 {
        POSITIVE_FACTOR_15 as nat
    } else if bit == 16 {
        POSITIVE_FACTOR_16 as nat
    } else if bit == 17 {
        POSITIVE_FACTOR_17 as nat
    } else {
        POSITIVE_FACTOR_18 as nat
    }
}

/// 1 / sqrt(1.0001)^(2^bit) in Q64.64, for bit 1 to 18.
pub open spec fn negative_factor(bit: nat) -> nat {
    if bit == 1 {
        NEGATIVE_FACTOR_1 as nat
    } else if bit == 2 {
        NEGATIVE_FACTOR_2 as nat
    } else if bit == 3 {
        NEGATIVE_FACTOR_3 as nat
    } else if bit == 4 {
        NEGATIVE_FACTOR_4 as nat
    } else if bit == 5 {
        NEGATIVE_FACTOR_5 as nat
    } else if bit == 6 {
        NEGATIVE_FACTOR_6 as nat
    } else if bit == 7 {
        NEGATIVE_FACTOR_7 as nat
    } else if bit == 8 {
        NEGATIVE_FACTOR_8 as nat
    } else if bit == 9 {
        NEGATIVE_FACTOR_9 as nat
    } else if bit == 10 {
        NEGATIVE_FACTOR_10 as nat
    } else if bit == 11 {
        NEGATIVE_FACTOR_11 as nat
    } else if bit == 12 {
        NEGATIVE_FACTOR_12 as nat
    } else if bit == 13 {
        NEGATIVE_FACTOR_13 as nat
    } else if bit == 14 {
        NEGATIVE_FACTOR_14 as nat
    } else if bit == 15 {
        NEGATIVE_FACTOR_15 as nat
    } else if bit == 16 {
        NEGATIVE_FACTOR_16 as nat
    } else if bit == 17 {
        NEGATIVE_FACTOR_17 as nat
    } else {
        NEGATIVE_FACTOR_18 as nat
    }
}

/// The Q32.96 ratio for a non-negative tick `t` after its bits 0 to `bit` were
/// taken in: each set bit multiplies by its factor, truncating to Q32.96.
/// `None` where a product leaves 128 bits.
pub open spec fn positive_ratio(t: nat, bit: nat) -> Option<nat>
    decreases bit,
{
    if bit == 0 {
        Some(if tick_bit(t, 0) { POSITIVE_FACTOR_0 as nat } else { POSITIVE_ONE as nat })
    } else {
        match positive_ratio(t, (bit - 1) as nat) {
            Some(r) => if tick_bit(t, bit) {
                let n = r * positive_factor(bit) / pow2(96);
                if n <= u128::MAX { Some(n) } else { None }
            } else {
                Some(r)
            },
            None => None,
        }
    }
}

/// The Q64.64 ratio for the magnitude `t` of a negative tick after its bits
/// 0 to `bit` were taken in.
pub open spec fn negative_ratio(t: nat, bit: nat) -> nat
    decreases bit,
{
    if bit == 0 {
        if tick_bit(t, 0) { NEGATIVE_FACTOR_0 as nat } else { NEGATIVE_ONE as nat }
    } else {
        let r = negative_ratio(t, (bit - 1) as nat);
        if tick_bit(t, bit) {
            r * negative_factor(bit) / pow64()
        } else {
            r
        }
    }
}

/// The Q64.64 square-root price of a tick as the fixed-point product gives
/// it; `None` where an intermediate product leaves 128 bits.
pub open spec fn sqrt_price_product(tick: int) -> Option<nat> {
    if tick >= 0 {
        match positive_ratio(tick as nat, 18) {
            Some(r) => Some(r / pow2(32)),
            None => None,
        }
    } else {
        Some(negative_ratio((-tick) as nat, 18))
    }
}

/// The square-root price of a tick: defined for ticks in
/// `[MIN_TICK, MAX_TICK]` whose price lies in `[MIN_SQRT_PRICE_X64, MAX_SQRT_PRICE_X64]`.
pub open spec fn sqrt_price_at_tick(tick: int) -> Option<nat> {
    if tick < MIN_TICK || tick > MAX_TICK {
        None
    } else {
        match sqrt_price_product(tick) {
            Some(p) => if MIN_SQRT_PRICE_X64 <= p <= MAX_SQRT_PRICE_X64 {
                Some(p)
            } else {
                None
            },
            None => None,
        }
    }
}

/// What `get_sqrt_price_at_tick` returns: the price, or
/// `SqrtPriceOutOfBounds` where the tick has none in the price bounds
/// (every tick outside `[MIN_TICK, MAX_TICK]` among them).
pub open spec fn sqrt_price_at_tick_result(tick: int) -> Result<u128, ErrorCode> {
    match sqrt_price_at_tick(tick) {
        Some(p) => Ok(p as u128),
        None => Err(ErrorCode::SqrtPriceOutOfBounds),
    }
}

fn positive_factor_at(bit: u32) -> (r: u128)
    requires
        1 <= bit <= 18,
    ensures
        r == positive_factor(bit as nat),
{
    if bit == 1 {
        POSITIVE_FACTOR_1
    } else if bit == 2 {
        POSITIVE_FACTOR_2
    } else if bit == 3 {
        POSITIVE_FACTOR_3
    } else if bit == 4 {
        POSITIVE_FACTOR_4
    } else if bit == 5 {
        POSITIVE_FACTOR_5
    } else if bit == 6 {
        POSITIVE_FACTOR_6
    } else if bit == 7 {
        POSITIVE_FACTOR_7
    } else if bit == 8 {
        POSITIVE_FACTOR_8
    } else if bit == 9 {
        POSITIVE_FACTOR_9
    } else if bit == 10 {
        POSITIVE_FACTOR_10
    } else if bit == 11 {
        POSITIVE_FACTOR_11
    } else if bit == 12 {
        POSITIVE_FACTOR_12
    } else if bit == 13 {
        POSITIVE_FACTOR_13
    } else if bit == 14 {
        POSITIVE_FACTOR_14
    } else if bit == 15 {
        POSITIVE_FACTOR_15
    } else if bit == 16 {
        POSITIVE_FACTOR_16
    } else if bit == 17 {
        POSITIVE_FACTOR_17
    } else {
        POSITIVE_FACTOR_18
    }
}

fn negative_factor_at(bit: u32) -> (r: u128)
    requires
        1 <= bit <= 18,
    ensures
        r == negative_factor(bit as nat),
        r < pow64(),
{
    if bit == 1 {
        NEGATIVE_FACTOR_1
    } else if bit == 2 {
        NEGATIVE_FACTOR_2
    } else if bit == 3 {
        NEGATIVE_FACTOR_3
    } else if bit == 4 {
        NEGATIVE_FACTOR_4
    } else if bit == 5 {
        NEGATIVE_FACTOR_5
    } else if bit == 6 {
        NEGATIVE_FACTOR_6
    } else if bit == 7 {
        NEGATIVE_FACTOR_7
    } else if bit == 8 {
        NEGATIVE_FACTOR_8
    } else if bit == 9 {
        NEGATIVE_FACTOR_9
    } else if bit == 10 {
        NEGATIVE_FACTOR_10
    } else if bit == 11 {
        NEGATIVE_FACTOR_11
    } else if bit == 12 {
        NEGATIVE_FACTOR_12
    } else if bit == 13 {
        NEGATIVE_FACTOR_13
    } else if bit == 14 {
        NEGATIVE_FACTOR_14
    } else if bit == 15 {
        NEGATIVE_FACTOR_15
    } else if bit == 16 {
        NEGATIVE_FACTOR_16
    } else if bit == 17 {
        NEGATIVE_FACTOR_17
    } else {
        NEGATIVE_FACTOR_18
    }
}

/// The square-root price of `tick`, in Q64.64.
pub fn get_sqrt_price_at_tick(tick: i32) -> (r: Result<u128, ErrorCode>)
    ensures
        r == sqrt_price_at_tick_result(tick as int),
{
    if tick < MIN_TICK || tick > MAX_TICK {
        return Err(ErrorCode::SqrtPriceOutOfBounds);
    }
    let product = if tick >= 0 {
        get_sqrt_price_at_positive_tick(tick)
    } else {
        Some(get_sqrt_price_at_negative_tick(tick))
    };
    match product {
        Some(p) => if MIN_SQRT_PRICE_X64 <= p && p <= MAX_SQRT_PRICE_X64 {
            Ok(p)
        } else {
            Err(ErrorCode::SqrtPriceOutOfBounds)
        },
        None => Err(ErrorCode::SqrtPriceOutOfBounds),
    }
}

fn get_sqrt_price_at_negative_tick(tick: i32) -> (r: u128)
    requires
        MIN_TICK <= tick < 0,
    ensures
        sqrt_price_product(tick as int) == Some(r as nat),
{
    let abs_tick: u32 = (-tick) as u32;
    proof {
        lemma2_to64();
        lemma_pow2_bounds();
    }
    let mut ratio: u128 = if abs_tick % 2 == 1 {
        NEGATIVE_FACTOR_0
    } else {
        NEGATIVE_ONE
    };
    let mut rest: u32 = abs_tick / 2;
    let mut bit: u32 = 1;
    while bit <= 18
        invariant
            1 <= bit <= 19,
            rest == abs_tick as nat / pow2(bit as nat),
            ratio == negative_ratio(abs_tick as nat, (bit - 1) as nat),
            ratio <= pow64(),
            pow2(64) == pow64(),
        decreases 19 - bit,
    {
        if rest % 2 == 1 {
            let factor = negative_factor_at(bit);
            proof {
                assert(ratio * factor <= pow64() * pow64()) by (nonlinear_arith)
                    requires
                        ratio <= pow64(),
                        factor < pow64(),
                ;
                assert(ratio as nat * factor as nat / pow64() <= ratio) by (nonlinear_arith)
                    requires
                        factor < pow64(),
                ;
            }
            ratio = ratio.mul_shift_right(factor, 64);
        }
        proof {
            lemma_div_pow2_add(abs_tick as nat, bit as nat, 1);
            lemma2_to64();
        }
        rest = rest / 2;
        bit = bit + 1;
    }
    ratio
}

fn get_sqrt_price_at_positive_tick(tick: i32) -> (r: Option<u128>)
    requires
        0 <= tick <= MAX_TICK,
    ensures
        match r {
            Some(p) => sqrt_price_product(tick as int) == Some(p as nat),
            None => sqrt_price_product(tick as int) is None,
        },
{
    let t: u32 = tick as u32;
    proof {
        lemma2_to64();
    }
    let mut ratio: u128 = if t % 2 == 1 {
        POSITIVE_FACTOR_0
    } else {
        POSITIVE_ONE
    };
    let mut rest: u32 = t / 2;
    let mut bit: u32 = 1;
    while bit <= 18
        invariant
            1 <= bit <= 19,
            rest == t as nat / pow2(bit as nat),
            positive_ratio(t as nat, (bit - 1) as nat) == Some(ratio as nat),
            t == tick,
            0 <= tick,
        decreases 19 - bit,
    {
        if rest % 2 == 1 {
            let factor = positive_factor_at(bit);
            match full_mul_u128(ratio, factor).shift_right(96).checked_as_u128() {
                Some(n) => {
                    ratio = n;
                },
                None => {
                    proof {
                        assert(positive_ratio(t as nat, bit as nat) is None);
                        lemma_positive_ratio_stays_none(t as nat, bit as nat, 18);
                    }
                    return None;
                },
            }
        }
        proof {
            lemma_div_pow2_add(t as nat, bit as nat, 1);
            lemma2_to64();
        }
        rest = rest / 2;
        bit = bit + 1;
    }
    proof {
        lemma2_to64_rest();
    }
    Some(ratio / 0x1_0000_0000)
}

proof fn lemma_positive_ratio_stays_none(t: nat, bit: nat, last: nat)
    requires
        bit <= last,
        positive_ratio(t, bit) is None,
    ensures
        positive_ratio(t, last) is None,
    decreases last - bit,
{
    if bit < last {
        lemma_positive_ratio_stays_none(t, bit + 1, last);
    }
}

/// The position of the highest set bit of `x`: floor(log2(x)) for `x >= 1`.
pub open spec fn msb(x: nat) -> nat
    decreases x,
{
    if x < 2 {
        0
    } else {
        1 + msb(x / 2)
    }
}

/// `x` scaled by a power of two into `[2^63, 2^64)`: its mantissa in Q1.63.
pub open spec fn log2_mantissa(x: nat) -> nat {
    let m = msb(x);
    if m >= 64 {
        x / pow2((m - 63) as nat)
    } else {
        x * pow2((63 - m) as nat)
    }
}

/// Bits 31 - i down to 18 of the fractional part of log2 of the Q1.63
/// mantissa `r`, found by repeated squaring: each round squares `r`, takes
/// the bit that lands above the point, and halves `r` where that bit is set.
pub open spec fn log2_fraction(r: nat, i: nat) -> nat
    decreases 14 - i,
{
    if i >= 14 {
        0
    } else {
        let s = r * r / pow2(63);
        if s >= pow2(64) {
            pow2((31 - i) as nat) + log2_fraction(s / 2, i + 1)
        } else {
            log2_fraction(s, i + 1)
        }
    }
}

/// log2 of a Q64.64 value, in Q32.32, to 14 fractional bits.
pub open spec fn log2_x32(x: nat) -> int {
    (msb(x) - 64) * pow2(32) + log2_fraction(log2_mantissa(x), 0)
}

/// The two ticks between which the tick of a square-root price must lie,
/// from log_sqrt(1.0001)(x) = log2(x) / log2(sqrt(1.0001)) and the error bounds
/// of the approximation.
pub open spec fn tick_candidates(x: nat) -> (int, int) {
    let l = log2_x32(x) * 59543866431366;
    ((l - 184467440737095516) / pow2(64) as int, (l + 15793534762490258745) / pow2(64) as int)
}

/// The tick that the logarithm gives for the square-root price `x`: the
/// higher candidate where its price does not exceed `x`, else the lower.
pub open spec fn tick_estimate(x: nat) -> int {
    let (low, high) = tick_candidates(x);
    if low == high {
        low
    } else {
        match sqrt_price_at_tick(high) {
            Some(p) => if p <= x {
                high
            } else {
                low
            },
            None => low,
        }
    }
}

proof fn lemma_msb_bounds(x: nat)
    requires
        x >= 1,
    ensures
        pow2(msb(x)) <= x < pow2(msb(x) + 1),
    decreases x,
{
    lemma2_to64();
    if x >= 2 {
        lemma_msb_bounds(x / 2);
        lemma_pow2_unfold(msb(x));
        lemma_pow2_unfold(msb(x) + 1);
    }
}

/// `x / 2^64` rounded towards negative infinity, for `|x| < 2^84`.
fn floor_div_pow64(x: i128) -> (r: i32)
    requires
        -0x10_0000_0000_0000_0000_0000 <= x < 0x10_0000_0000_0000_0000_0000,
    ensures
        r == x as int / pow2(64) as int,
{
    let shifted: u128 = (x + 0x10_0000_0000_0000_0000_0000) as u128;
    let q: u128 = shifted / 0x1_0000_0000_0000_0000;
    proof {
        lemma_pow2_bounds();
        let fq = x as int / 0x1_0000_0000_0000_0000;
        let fr = x as int % 0x1_0000_0000_0000_0000;
        assert(shifted == (fq + 0x10_0000) * 0x1_0000_0000_0000_0000 + fr);
        lemma_fundamental_div_mod_converse(shifted as int, 0x1_0000_0000_0000_0000, fq + 0x10_0000, fr);
    }
    (q as i128 - 0x10_0000) as i32
}

/// The tick of a square-root price as the fixed-point binary logarithm
/// estimates it.
fn log_tick_estimate(sqrt_price_x64: u128) -> (r: i32)
    requires
        MIN_SQRT_PRICE_X64 <= sqrt_price_x64 <= MAX_SQRT_PRICE_X64,
    ensures
        r == tick_estimate(sqrt_price_x64 as nat),
{
    let x = sqrt_price_x64;
    let mut r: u128 = x;
    let mut msb_x: u32 = 0;
    proof {
        lemma_msb_bounds(x as nat);
        lemma_pow2_bounds();
        lemma2_to64_rest();
        lemma2_to64();
        lemma_pow2_adds(64, 32);
        if msb(x as nat) > 96 {
            lemma_pow2_strictly_increases(96, msb(x as nat));
        }
    }
    while r >= 2
        invariant
            r >= 1,
            msb_x + msb(r as nat) == msb(x as nat),
            msb(x as nat) < 96,
        decreases r,
    {
        r = r / 2;
        msb_x = msb_x + 1;
    }
    proof {
        lemma_msb_bounds(x as nat);
        lemma2_to64();
        lemma2_to64_rest();
        lemma_pow2_bounds();
        lemma_pow2_adds(64, 32);
        if msb_x >= 96 {
            lemma_pow2_strictly_increases(96, msb_x as nat);
        }
        if msb_x + 1 <= 32 {
            if msb_x + 1 < 32 {
                lemma_pow2_strictly_increases((msb_x + 1) as nat, 32);
            }
        }
    }
    assert(32 <= msb_x < 96);
    let mut r: u128 = if msb_x >= 64 {
        let k: u32 = msb_x - 63;
        proof {
            vstd::bits::lemma_u128_shr_is_div(x, k as u128);
            lemma_pow2_pos(k as nat);
            lemma_pow2_adds(63, k as nat);
            lemma_pow2_adds(64, k as nat);
            lemma_fundamental_div_mod_converse((pow2(63) * pow2(k as nat)) as int, pow2(k as nat) as int, pow2(63) as int, 0);
            lemma_div_is_ordered(pow2(msb_x as nat) as int, x as int, pow2(k as nat) as int);
            lemma_multiply_divide_lt(x as int, pow2(k as nat) as int, pow2(64) as int);
        }
        x >> (k as u128)
    } else {
        let k: u32 = 63 - msb_x;
        proof {
            lemma_pow2_adds(msb_x as nat, k as nat);
            lemma_pow2_adds((msb_x + 1) as nat, k as nat);
            let a = pow2(msb_x as nat);
            let b = pow2((msb_x + 1) as nat);
            let c = pow2(k as nat);
            assert(pow2(63) == a * c);
            assert(pow2(64) == b * c);
            assert(x * c < b * c && a * c <= x * c) by (nonlinear_arith)
                requires
                    a <= x < b,
                    c > 0,
            ;
            vstd::bits::lemma_u64_shl_is_mul(x as u64, k as u64);
        }
        ((x as u64) << (k as u64)) as u128
    };
    assert(r == log2_mantissa(x as nat));
    let mut log_2_x32: i128 = (msb_x as i128 - 64) * 0x1_0000_0000;
    let mut bit_value: i128 = 0x8000_0000;
    let mut i: u32 = 0;
    while i < 14
        invariant
            i <= 14,
            pow2(63) <= r < pow2(64),
            bit_value == pow2((31 - i) as nat),
            log_2_x32 + log2_fraction(r as nat, i as nat) == log2_x32(x as nat),
            (msb_x - 64) * pow2(32) <= log_2_x32 <= (msb_x - 64) * pow2(32) + pow2(32) - 2
                * bit_value,
            32 <= msb_x < 96,
            pow2(63) == 0x8000_0000_0000_0000,
            pow2(64) == 0x1_0000_0000_0000_0000,
            pow2(32) == 0x1_0000_0000,
        decreases 14 - i,
    {
        let ghost r0 = r;
        proof {
            assert(r * r < 0x1_0000_0000_0000_0000 * 0x1_0000_0000_0000_0000 && r * r
                >= 0x8000_0000_0000_0000 * 0x8000_0000_0000_0000) by (nonlinear_arith)
                requires
                    0x8000_0000_0000_0000 <= r < 0x1_0000_0000_0000_0000,
            ;
            lemma_pow2_unfold((31 - i) as nat);
            lemma2_to64();
            lemma_multiply_divide_lt((r * r) as int, 0x8000_0000_0000_0000, 0x2_0000_0000_0000_0000);
            lemma_div_is_ordered((0x8000_0000_0000_0000 * 0x8000_0000_0000_0000) as int, (r * r) as int, 0x8000_0000_0000_0000);
        }
        r = (r * r) / 0x8000_0000_0000_0000;
        let f: u128 = r / 0x1_0000_0000_0000_0000;
        proof {
            assert(f <= 1);
            assert(r == r0 as nat * r0 as nat / pow2(63));
            assert(f == 1 <==> r >= pow2(64));
        }
        let ghost s = r;
        let ghost log_before = log_2_x32;
        if f == 1 {
            log_2_x32 = log_2_x32 + bit_value;
            r = r / 2;
        }
        proof {
            assert(log2_fraction(r0 as nat, i as nat) == log_2_x32 - log_before + log2_fraction(
                r as nat,
                (i + 1) as nat,
            ));
        }
        bit_value = bit_value / 2;
        i = i + 1;
    }
    proof {
        assert(-0x20_0000_0000 <= log_2_x32 <= 0x20_0000_0000) by (nonlinear_arith)
            requires
                (msb_x - 64) * pow2(32) <= log_2_x32 <= (msb_x - 64) * pow2(32) + pow2(32) - 2
                    * bit_value,
                32 <= msb_x < 96,
                pow2(32) == 0x1_0000_0000,
                bit_value >= 0,
        ;
        assert(-0x20_0000_0000 * 59543866431366 <= log_2_x32 * 59543866431366 <= 0x20_0000_0000
            * 59543866431366) by (nonlinear_arith)
            requires
                -0x20_0000_0000 <= log_2_x32 <= 0x20_0000_0000,
        ;
    }
    let log_sqrt_10001: i128 = log_2_x32 * 59543866431366;
    assert(-0x10_0000_0000_0000_0000_0000 <= log_sqrt_10001 - 184467440737095516);
    assert(log_sqrt_10001 + 15793534762490258745 < 0x10_0000_0000_0000_0000_0000);
    let tick_low = floor_div_pow64(log_sqrt_10001 - 184467440737095516);
    let tick_high = floor_div_pow64(log_sqrt_10001 + 15793534762490258745);
    if tick_low == tick_high {
        tick_low
    } else {
        match get_sqrt_price_at_tick(tick_high) {
            Ok(p) => if p <= x {
                tick_high
            } else {
                tick_low
            },
            Err(_) => tick_low,
        }
    }
}

/// The lowest tick's price is the lowest price.
pub proof fn lemma_min_tick_price()
    ensures
        sqrt_price_at_tick(MIN_TICK as int) == Some(MIN_SQRT_PRICE_X64 as nat),
{
    lemma2_to64();
    assert(negative_ratio(443636, 0) == 18446744073709551616);
    assert(negative_ratio(443636, 1) == 18446744073709551616);
    assert(negative_ratio(443636, 2) == 18443055278223354162) by (nonlinear_arith)
        requires
            negative_ratio(443636, 2) == negative_ratio(443636, 1) * negative_factor(2) / pow64(),
            negative_ratio(443636, 1) == 18446744073709551616,
            negative_factor(2) == 18443055278223354162,
            pow64() == 0x1_0000_0000_0000_0000,
    ;
    assert(negative_ratio(443636, 3) == 18443055278223354162);
    assert(negative_ratio(443636, 4) == 18428307471288117479) by (nonlinear_arith)
        requires
            negative_ratio(443636, 4) == negative_ratio(443636, 3) * negative_factor(4) / pow64(),
            negative_ratio(443636, 3) == 18443055278223354162,
            negative_factor(4) == 18431993317065449817,
            pow64() == 0x1_0000_0000_0000_0000,
    ;
    assert(negative_ratio(443636, 5) == 18398847226801858501) by (nonlinear_arith)
        requires
            negative_ratio(443636, 5) == negative_ratio(443636, 4) * negative_factor(5) / pow64(),
            negative_ratio(443636, 4) == 18428307471288117479,
            negative_factor(5) == 18417254355718160513,
            pow64() == 0x1_0000_0000_0000_0000,
    ;
    assert(negative_ratio(443636, 6) == 18340067951587015306) by (nonlinear_arith)
        requires
            negative_ratio(443636, 6) == negative_ratio(443636, 5) * negative_factor(6) / pow64(),
            negative_ratio(443636, 5) == 18398847226801858501,
            negative_factor(6) == 18387811781193591352,
            pow64() == 0x1_0000_0000_0000_0000,
    ;
    assert(negative_ratio(443636, 7) == 18223072152272561885) by (nonlinear_arith)
        requires
            negative_ratio(443636, 7) == negative_ratio(443636, 6) * negative_factor(7) / pow64(),
            negative_ratio(443636, 6) == 18340067951587015306,
            negative_factor(7) == 18329067761203520168,
            pow64() == 0x1_0000_0000_0000_0000,
    ;
    assert(negative_ratio(443636, 8) == 18223072152272561885);
    assert(negative_ratio(443636, 9) == 18223072152272561885);
    assert(negative_ratio(443636, 10) == 17313578044587773368) by (nonlinear_arith)
        requires
            negative_ratio(443636, 10) == negative_ratio(443636, 9) * negative_factor(10) / pow64(),
            negative_ratio(443636, 9) == 18223072152272561885,
            negative_factor(10) == 17526086738831147013,
            pow64() == 0x1_0000_0000_0000_0000,
    ;
    assert(negative_ratio(443636, 11) == 17313578044587773368);
    assert(negative_ratio(443636, 12) == 17313578044587773368);
    assert(negative_ratio(443636, 13) == 17313578044587773368);
    assert(negative_ratio(443636, 14) == 7631863196526440527) by (nonlinear_arith)
        requires
            negative_ratio(443636, 14) == negative_ratio(443636, 13) * negative_factor(14) / pow64(),
            negative_ratio(443636, 13) == 17313578044587773368,
            negative_factor(14) == 8131365268884726200,
            pow64() == 0x1_0000_0000_0000_0000,
    ;
    assert(negative_ratio(443636, 15) == 1482921196045045371) by (nonlinear_arith)
        requires
            negative_ratio(443636, 15) == negative_ratio(443636, 14) * negative_factor(15) / pow64(),
            negative_ratio(443636, 14) == 7631863196526440527,
            negative_factor(15) == 3584323654723342297,
            pow64() == 0x1_0000_0000_0000_0000,
    ;
    assert(negative_ratio(443636, 16) == 1482921196045045371);
    assert(negative_ratio(443636, 17) == 2113820261052536) by (nonlinear_arith)
        requires
            negative_ratio(443636, 17) == negative_ratio(443636, 16) * negative_factor(17) / pow64(),
            negative_ratio(443636, 16) == 1482921196045045371,
            negative_factor(17) == 26294789957452057,
            pow64() == 0x1_0000_0000_0000_0000,
    ;
    assert(negative_ratio(443636, 18) == 4295048016) by (nonlinear_arith)
        requires
            negative_ratio(443636, 18) == negative_ratio(443636, 17) * negative_factor(18) / pow64(),
            negative_ratio(443636, 17) == 2113820261052536,
            negative_factor(18) == 37481735321082,
            pow64() == 0x1_0000_0000_0000_0000,
    ;
}

/// Whether tick `t` has a price and that price does not exceed `x`.
pub open spec fn price_at_most(t: int, x: nat) -> bool {
    match sqrt_price_at_tick(t) {
        Some(p) => p <= x,
        None => false,
    }
}

/// `t` is a floor tick of `x`: its price does not exceed `x`, and the next
/// tick, where there is one, has no price that does.
pub open spec fn is_floor_tick(t: int, x: nat) -> bool {
    price_at_most(t, x) && (t < MAX_TICK ==> !price_at_most(t + 1, x))
}

/// Bisection for a floor tick between `lo` and `hi`.
pub open spec fn floor_search(x: nat, lo: int, hi: int) -> int
    decreases hi - lo,
{
    if hi - lo <= 1 {
        lo
    } else {
        let mid = lo + (hi - lo) / 2;
        if price_at_most(mid, x) {
            floor_search(x, mid, hi)
        } else {
            floor_search(x, lo, mid)
        }
    }
}

/// The tick `get_tick_at_sqrt_price` gives for an in-range price `x`: the
/// logarithm's estimate where it is a floor tick of `x`, else the tick that
/// bisection over the whole tick range finds.
pub open spec fn tick_at_sqrt_price(x: nat) -> int {
    let estimate = tick_estimate(x);
    if is_floor_tick(estimate, x) {
        estimate
    } else {
        floor_search(x, MIN_TICK as int, MAX_TICK + 1)
    }
}

fn price_at_most_exec(t: i32, x: u128) -> (r: bool)
    ensures
        r == price_at_most(t as int, x as nat),
{
    match get_sqrt_price_at_tick(t) {
        Ok(p) => p <= x,
        Err(_) => false,
    }
}

fn floor_tick_search(x: u128) -> (r: i32)
    requires
        MIN_SQRT_PRICE_X64 <= x <= MAX_SQRT_PRICE_X64,
    ensures
        r == floor_search(x as nat, MIN_TICK as int, MAX_TICK + 1),
        is_floor_tick(r as int, x as nat),
{
    proof {
        lemma_min_tick_price();
    }
    let mut lo: i32 = MIN_TICK;
    let mut hi: i32 = MAX_TICK + 1;
    while hi - lo > 1
        invariant
            MIN_TICK <= lo < hi <= MAX_TICK + 1,
            price_at_most(lo as int, x as nat),
            hi <= MAX_TICK ==> !price_at_most(hi as int, x as nat),
            floor_search(x as nat, lo as int, hi as int) == floor_search(
                x as nat,
                MIN_TICK as int,
                MAX_TICK + 1,
            ),
        decreases hi - lo,
    {
        let mid = lo + (hi - lo) / 2;
        if price_at_most_exec(mid, x) {
            lo = mid;
        } else {
            hi = mid;
        }
    }
    lo
}

/// The greatest tick whose square-root price does not exceed
/// `sqrt_price_x64`, found from a fixed-point binary logarithm and checked
/// against the prices of the tick and the one after it; bisection over the
/// tick range answers where that check fails. A price outside the bounds is
/// rejected.
pub fn get_tick_at_sqrt_price(sqrt_price_x64: u128) -> (r: Result<i32, ErrorCode>)
    ensures
        (sqrt_price_x64 < MIN_SQRT_PRICE_X64 || sqrt_price_x64 > MAX_SQRT_PRICE_X64) ==> r == Err::<
            i32,
            ErrorCode,
        >(ErrorCode::SqrtPriceOutOfBounds),
        MIN_SQRT_PRICE_X64 <= sqrt_price_x64 <= MAX_SQRT_PRICE_X64 ==> r == Ok::<i32, ErrorCode>(
            tick_at_sqrt_price(sqrt_price_x64 as nat) as i32,
        ) && is_floor_tick(tick_at_sqrt_price(sqrt_price_x64 as nat), sqrt_price_x64 as nat)
            && MIN_TICK <= tick_at_sqrt_price(sqrt_price_x64 as nat) <= MAX_TICK,
{
    if sqrt_price_x64 < MIN_SQRT_PRICE_X64 || sqrt_price_x64 > MAX_SQRT_PRICE_X64 {
        return Err(ErrorCode::SqrtPriceOutOfBounds);
    }
    let estimate = log_tick_estimate(sqrt_price_x64);
    let is_floor = price_at_most_exec(estimate, sqrt_price_x64) && (estimate >= MAX_TICK
        || !price_at_most_exec(estimate + 1, sqrt_price_x64));
    if is_floor {
        Ok(estimate)
    } else {
        Ok(floor_tick_search(sqrt_price_x64))
    }
}

} // verus!
