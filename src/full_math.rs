//! Multiply-then-divide and multiply-then-shift without intermediate
//! overflow, and division with an explicit rounding direction.
use crate::bn::{full_mul_u128, lemma_pow2_bounds, lemma_u256_bound, pow128, pow256, Downcast, Shift, U256};
use vstd::arithmetic::div_mod::*;
use vstd::arithmetic::power2::*;
use vstd::bits::*;
use vstd::prelude::*;

verus! {

/// How a quotient is brought to an integer.
#[derive(Clone, Copy, Debug, PartialEq, Eq, Structural)]
pub enum Rounding {
    /// Towards zero.
    Down,
    /// Away from zero.
    Up,
    /// To the nearest integer, halves away from zero.
    Nearest,
}

/// `n / d` brought to an integer in the given direction.
pub open spec fn div_rounded(n: nat, d: nat, rounding: Rounding) -> nat {
    match rounding {
        Rounding::Down => n / d,
        Rounding::Up => (n + d - 1) as nat / d,
        Rounding::Nearest => (n + d / 2) as nat / d,
    }
}

/// `n / d`, plus one where `round_up` is set and the division leaves a remainder.
pub open spec fn div_round_up_if(n: nat, d: nat, round_up: bool) -> nat {
    if round_up && n % d != 0 {
        n / d + 1
    } else {
        n / d
    }
}

/// Products at double width, then scaled back down.
pub trait FullMath: Sized {
    /// Output type of the scaled results.
    type Output;

    /// Output type of `full_mul`.
    type FullOutput;

    /// Whether `self * num / denom`, rounded as asked, is defined and fits the output type.
    spec fn mul_div_fits(self, num: Self, denom: Self, rounding: Rounding) -> bool;

    /// Whether `self * num` shifted by `shift` (left if `left`) fits the output type.
    spec fn mul_shift_fits(self, num: Self, shift: u32, left: bool) -> bool;

    /// Calculates `floor(self * num / denom)`.
    fn mul_div_floor(self, num: Self, denom: Self) -> Self::Output
        requires
            self.mul_div_fits(num, denom, Rounding::Down),
    ;

    /// Calculates `round(self * num / denom)`, halves rounded up.
    fn mul_div_round(self, num: Self, denom: Self) -> Self::Output
        requires
            self.mul_div_fits(num, denom, Rounding::Nearest),
    ;

    /// Calculates `ceil(self * num / denom)`.
    fn mul_div_ceil(self, num: Self, denom: Self) -> Self::Output
        requires
            self.mul_div_fits(num, denom, Rounding::Up),
    ;

    /// Calculates `floor(self * num / 2^shift)`.
    fn mul_shift_right(self, num: Self, shift: u32) -> Self::Output
        requires
            self.mul_shift_fits(num, shift, false),
    ;

    /// Calculates `self * num * 2^shift`, dropping the bits past the double width.
    fn mul_shift_left(self, num: Self, shift: u32) -> Self::Output
        requires
            self.mul_shift_fits(num, shift, true),
    ;

    /// The exact product.
    fn full_mul(self, num: Self) -> Self::FullOutput;
}

proof fn lemma_mul_div_bound(a: nat, b: nat, d: nat, extra: nat)
    requires
        a < pow128(),
        b < pow128(),
        extra < pow128(),
    ensures
        a * b + extra < pow256(),
{
    assert(a * b + extra < pow256()) by (nonlinear_arith)
        requires
            a < pow128(),
            b < pow128(),
            extra < pow128(),
            pow256() == pow128() * pow128(),
            pow128() > 2,
    ;
}

impl FullMath for u128 {
    type Output = u128;

    type FullOutput = U256;

    open spec fn mul_div_fits(self, num: u128, denom: u128, rounding: Rounding) -> bool {
        denom != 0 && div_rounded((self * num) as nat, denom as nat, rounding) <= u128::MAX
    }

    open spec fn mul_shift_fits(self, num: u128, shift: u32, left: bool) -> bool {
        if left {
            (self * num * pow2(shift as nat)) % (pow256() as int) <= u128::MAX
        } else {
            (self * num) / (pow2(shift as nat) as int) <= u128::MAX
        }
    }

    fn mul_div_floor(self, num: u128, denom: u128) -> (r: u128)
        ensures
            r == self * num / (denom as int),
    {
        let (q, _) = full_mul_u128(self, num).div_mod(U256::from_u128(denom));
        q.as_u128()
    }

    fn mul_div_round(self, num: u128, denom: u128) -> (r: u128)
        ensures
            r == div_rounded((self * num) as nat, denom as nat, Rounding::Nearest),
    {
        proof {
            lemma_mul_div_bound(self as nat, num as nat, denom as nat, (denom / 2) as nat);
        }
        let n = full_mul_u128(self, num).checked_add(U256::from_u128(denom / 2)).unwrap();
        let (q, _) = n.div_mod(U256::from_u128(denom));
        q.as_u128()
    }

    fn mul_div_ceil(self, num: u128, denom: u128) -> (r: u128)
        ensures
            r == div_rounded((self * num) as nat, denom as nat, Rounding::Up),
    {
        proof {
            lemma_mul_div_bound(self as nat, num as nat, denom as nat, (denom - 1) as nat);
        }
        let n = full_mul_u128(self, num).checked_add(U256::from_u128(denom - 1)).unwrap();
        let (q, _) = n.div_mod(U256::from_u128(denom));
        q.as_u128()
    }

    fn mul_shift_right(self, num: u128, shift: u32) -> (r: u128)
        ensures
            r == (self * num) / (pow2(shift as nat) as int),
    {
        full_mul_u128(self, num).shift_right(shift).as_u128()
    }

    fn mul_shift_left(self, num: u128, shift: u32) -> (r: u128)
        ensures
            r == (self * num * pow2(shift as nat)) % (pow256() as int),
    {
        full_mul_u128(self, num).shift_left(shift).as_u128()
    }

    fn full_mul(self, num: u128) -> (r: U256)
        ensures
            r@ == self * num,
    {
        full_mul_u128(self, num)
    }
}

impl FullMath for u64 {
    type Output = u64;

    type FullOutput = u128;

    open spec fn mul_div_fits(self, num: u64, denom: u64, rounding: Rounding) -> bool {
        denom != 0 && div_rounded((self * num) as nat, denom as nat, rounding) <= u64::MAX
    }

    open spec fn mul_shift_fits(self, num: u64, shift: u32, left: bool) -> bool {
        if left {
            (self * num * pow2(shift as nat)) % (pow128() as int) <= u64::MAX
        } else {
            (self * num) / (pow2(shift as nat) as int) <= u64::MAX
        }
    }

    fn mul_div_floor(self, num: u64, denom: u64) -> (r: u64)
        ensures
            r == self * num / (denom as int),
    {
        let p = self.full_mul(num);
        (p / denom as u128) as u64
    }

    fn mul_div_round(self, num: u64, denom: u64) -> (r: u64)
        ensures
            r == div_rounded((self * num) as nat, denom as nat, Rounding::Nearest),
    {
        let p = self.full_mul(num);
        proof {
            assert(self * num <= u64::MAX * u64::MAX) by (nonlinear_arith);
        }
        ((p + (denom / 2) as u128) / denom as u128) as u64
    }

    fn mul_div_ceil(self, num: u64, denom: u64) -> (r: u64)
        ensures
            r == div_rounded((self * num) as nat, denom as nat, Rounding::Up),
    {
        let p = self.full_mul(num);
        proof {
            assert(self * num <= u64::MAX * u64::MAX) by (nonlinear_arith);
        }
        ((p + (denom - 1) as u128) / denom as u128) as u64
    }

    fn mul_shift_right(self, num: u64, shift: u32) -> (r: u64)
        ensures
            r == (self * num) / (pow2(shift as nat) as int),
    {
        let p = self.full_mul(num);
        if shift >= 128 {
            proof {
                lemma_pow2_bounds();
                if shift > 128 {
                    lemma_pow2_strictly_increases(128, shift as nat);
                }
                lemma_fundamental_div_mod_converse(p as int, pow2(shift as nat) as int, 0, p as int);
            }
            return 0;
        }
        proof {
            lemma_u128_shr_is_div(p, shift as u128);
        }
        (p >> (shift as u128)) as u64
    }

    fn mul_shift_left(self, num: u64, shift: u32) -> (r: u64)
        ensures
            r == (self * num * pow2(shift as nat)) % (pow128() as int),
    {
        let p = U256::from_u128(self.full_mul(num)).shift_left(shift);
        proof {
            lemma_pow2_bounds();
            lemma_mod_mod((self * num * pow2(shift as nat)) as int, pow128() as int, pow128() as int);
            assert(p@ % pow128() == p.lo) by (nonlinear_arith)
                requires
                    p@ == p.hi * pow128() + p.lo,
                    p.lo < pow128(),
            ;
        }
        (p.lo) as u64
    }

    fn full_mul(self, num: u64) -> (r: u128)
        ensures
            r == self * num,
    {
        proof {
            assert(self * num <= u64::MAX * u64::MAX) by (nonlinear_arith);
        }
        self as u128 * num as u128
    }
}

/// Division that reports a zero divisor and may round up.
pub trait DivRoundUpIf: Sized {
    type Output;

    fn checked_div_round_up_if(self, divisor: Self, round_up: bool) -> Option<Self::Output>;
}

impl DivRoundUpIf for u128 {
    type Output = u128;

    fn checked_div_round_up_if(self, divisor: u128, round_up: bool) -> (r: Option<u128>)
        ensures
            r is Some <==> divisor != 0,
            r matches Some(q) ==> q == div_round_up_if(self as nat, divisor as nat, round_up),
    {
        if divisor == 0 {
            return None;
        }
        let (quotient, remainer) = (self / divisor, self % divisor);
        if round_up && remainer != 0 {
            proof {
                assert(quotient < u128::MAX) by (nonlinear_arith)
                    requires
                        quotient == self / divisor,
                        divisor >= 2,
                ;
            }
            Some(quotient + 1)
        } else {
            Some(quotient)
        }
    }
}

impl DivRoundUpIf for U256 {
    type Output = U256;

    fn checked_div_round_up_if(self, divisor: U256, round_up: bool) -> (r: Option<U256>)
        ensures
            r is Some <==> divisor@ != 0,
            r matches Some(q) ==> q@ == div_round_up_if(self@, divisor@, round_up),
    {
        if divisor.is_zero() {
            return None;
        }
        let (quotient, remain) = self.div_mod(divisor);
        if round_up && !remain.is_zero() {
            proof {
                lemma_u256_bound(self);
                assert(quotient@ + 1 < pow256()) by (nonlinear_arith)
                    requires
                        quotient@ == self@ / divisor@,
                        divisor@ >= 2,
                        self@ < pow256(),
                ;
            }
            Some(quotient.checked_add(U256::one()).unwrap())
        } else {
            Some(quotient)
        }
    }
}

} // verus!
