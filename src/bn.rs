//! Fixed-width unsigned integers wider than the machine's: a 256-bit value
//! held as two 128-bit halves, with exact multiplication, division and shifts.
use vstd::arithmetic::div_mod::*;
use vstd::arithmetic::mul::*;
use vstd::arithmetic::power2::*;
use vstd::prelude::*;

verus! {

/// 2^64.
pub open spec fn pow64() -> nat {
    0x1_0000_0000_0000_0000nat
}

/// 2^128.
pub open spec fn pow128() -> nat {
    0x1_0000_0000_0000_0000_0000_0000_0000_0000nat
}

/// 2^256, one more than the largest `U256`.
pub open spec fn pow256() -> nat {
    pow128() * pow128()
}

const U64_MAX: u128 = 0xffff_ffff_ffff_ffff;

const WORD: u128 = 0x1_0000_0000_0000_0000;

const TOP_BIT: u128 = 0x8000_0000_0000_0000_0000_0000_0000_0000;

/// An unsigned 256-bit integer: `hi * 2^128 + lo`.
#[derive(Clone, Copy, Debug, PartialEq, Eq, Structural)]
pub struct U256 {
    pub lo: u128,
    pub hi: u128,
}

impl View for U256 {
    type V = nat;

    open spec fn view(&self) -> nat {
        self.hi as nat * pow128() + self.lo as nat
    }
}

pub proof fn lemma_u256_bound(x: U256)
    ensures
        x@ < pow256(),
{
    assert(x.hi as nat * pow128() <= (pow128() - 1) * pow128()) by (nonlinear_arith)
        requires
            x.hi < pow128(),
    ;
}

/// The powers of two that the word and half boundaries fall on.
pub proof fn lemma_pow2_bounds()
    ensures
        pow2(64) == pow64(),
        pow2(128) == pow128(),
        pow2(256) == pow256(),
        pow2(255) * 2 == pow256(),
{
    lemma2_to64_rest();
    lemma_pow2_adds(64, 64);
    lemma_pow2_adds(128, 128);
    lemma_pow2_unfold(256);
}

proof fn lemma_mul_pow2_succ(d: nat, k: nat)
    ensures
        d * pow2(k + 1) == 2 * (d * pow2(k)),
        pow2(k + 1) == 2 * pow2(k),
{
    lemma_pow2_unfold(k + 1);
    assert(d * (2 * pow2(k)) == 2 * (d * pow2(k))) by (nonlinear_arith);
}

impl U256 {
    pub fn zero() -> (r: U256)
        ensures
            r@ == 0,
    {
        U256 { lo: 0, hi: 0 }
    }

    pub fn one() -> (r: U256)
        ensures
            r@ == 1,
    {
        U256 { lo: 1, hi: 0 }
    }

    /// The value of a 128-bit integer.
    pub fn from_u128(v: u128) -> (r: U256)
        ensures
            r@ == v,
    {
        U256 { lo: v, hi: 0 }
    }

    pub fn lt(&self, o: &U256) -> (r: bool)
        ensures
            r == (self@ < o@),
    {
        self.hi < o.hi || (self.hi == o.hi && self.lo < o.lo)
    }

    pub fn le(&self, o: &U256) -> (r: bool)
        ensures
            r == (self@ <= o@),
    {
        self.hi < o.hi || (self.hi == o.hi && self.lo <= o.lo)
    }

    /// The sum, or `None` where it needs more than 256 bits.
    pub fn checked_add(self, o: U256) -> (r: Option<U256>)
        ensures
            r is Some <==> self@ + o@ < pow256(),
            r matches Some(s) ==> s@ == self@ + o@,
    {
        let (lo, carry) = if self.lo <= u128::MAX - o.lo {
            (self.lo + o.lo, 0u128)
        } else {
            (self.lo - (u128::MAX - o.lo) - 1, 1u128)
        };
        if self.hi > u128::MAX - o.hi || self.hi + o.hi > u128::MAX - carry {
            proof {
                lemma_u256_bound(self);
            }
            None
        } else {
            Some(U256 { lo, hi: self.hi + o.hi + carry })
        }
    }

    /// The difference, or `None` where `o` exceeds `self`.
    pub fn checked_sub(self, o: U256) -> (r: Option<U256>)
        ensures
            r is Some <==> o@ <= self@,
            r matches Some(s) ==> s@ == self@ - o@,
    {
        if self.lt(&o) {
            return None;
        }
        if self.lo >= o.lo {
            Some(U256 { lo: self.lo - o.lo, hi: self.hi - o.hi })
        } else {
            Some(U256 { lo: u128::MAX - (o.lo - self.lo) + 1, hi: self.hi - o.hi - 1 })
        }
    }

    /// Twice the value, for a value below 2^255.
    pub fn double(self) -> (r: U256)
        requires
            self@ < pow256() / 2,
        ensures
            r@ == 2 * self@,
    {
        U256 { lo: (self.lo % TOP_BIT) * 2, hi: self.hi * 2 + self.lo / TOP_BIT }
    }

    /// Twice the value, reduced modulo 2^256.
    pub fn wrapping_double(self) -> (r: U256)
        ensures
            r@ == (2 * self@) % pow256(),
    {
        let r = U256 { lo: (self.lo % TOP_BIT) * 2, hi: (self.hi % TOP_BIT) * 2 + self.lo / TOP_BIT };
        proof {
            lemma_u256_bound(r);
            let q = (self.hi / TOP_BIT) as int;
            assert(2 * self@ == q * pow256() + r@) by (nonlinear_arith)
                requires
                    self.hi == q * TOP_BIT + self.hi % TOP_BIT,
                    self.lo == (self.lo / TOP_BIT) * TOP_BIT + self.lo % TOP_BIT,
                    r@ == ((self.hi % TOP_BIT) * 2 + self.lo / TOP_BIT) * pow128() + (self.lo
                        % TOP_BIT) * 2,
                    self@ == self.hi * pow128() + self.lo,
                    TOP_BIT * 2 == pow128(),
                    pow256() == pow128() * pow128(),
            ;
            lemma_fundamental_div_mod_converse(2 * self@ as int, pow256() as int, q, r@ as int);
        }
        r
    }

    /// Half the value, rounded down.
    pub fn halve(self) -> (r: U256)
        ensures
            r@ == self@ / 2,
    {
        let r = U256 { lo: self.lo / 2 + (self.hi % 2) * TOP_BIT, hi: self.hi / 2 };
        proof {
            assert(self@ == r@ * 2 + self.lo % 2);
            lemma_fundamental_div_mod_converse(self@ as int, 2, r@ as int, (self.lo % 2) as int);
        }
        r
    }

    /// The value divided by 2^n, rounded down, for `n` below 64.
    pub fn shr_small(self, n: u32) -> (r: U256)
        requires
            n < 64,
        ensures
            r@ == self@ / pow2(n as nat),
    {
        if n == 0 {
            proof {
                lemma2_to64();
            }
            return self;
        }
        proof {
            vstd::bits::lemma_u64_pow2_no_overflow(n as nat);
            vstd::bits::lemma_u64_shl_is_mul(1u64, n as u64);
            lemma_pow2_strictly_increases(0, n as nat);
            lemma2_to64();
        }
        let p: u128 = (1u64 << (n as u64)) as u128;
        proof {
            assert(p >= 2);
            lemma_div_is_ordered_by_denominator(u128::MAX as int, 2, p as int);
        }
        let q: u128 = u128::MAX / p + 1;
        proof {
            lemma_pow2_bounds();
            lemma_pow2_adds((128 - n) as nat, n as nat);
            lemma_pow2_pos((128 - n) as nat);
            let k = pow2((128 - n) as nat);
            assert(u128::MAX == (k - 1) * p + (p - 1)) by (nonlinear_arith)
                requires
                    pow128() == k * p,
                    u128::MAX == pow128() - 1,
            ;
            lemma_fundamental_div_mod_converse(u128::MAX as int, p as int, k - 1, p - 1);
            assert(q * p == pow128());
        }
        let lo = self.lo / p;
        let carried = self.hi % p;
        proof {
            assert(carried * q + lo < pow128()) by (nonlinear_arith)
                requires
                    carried < p,
                    lo == self.lo / p,
                    self.lo < pow128(),
                    q * p == pow128(),
                    p > 0,
            ;
        }
        let r = U256 { lo: lo + carried * q, hi: self.hi / p };
        proof {
            lemma_fundamental_div_mod(self.hi as int, p as int);
            lemma_fundamental_div_mod(self.lo as int, p as int);
            assert(self@ == r@ * p + self.lo % p) by (nonlinear_arith)
                requires
                    self.hi == p * (self.hi / p) + carried,
                    carried == self.hi % p,
                    self.lo == p * lo + self.lo % p,
                    r@ == (self.hi / p) * pow128() + lo + carried * q,
                    self@ == self.hi * pow128() + self.lo,
                    q * p == pow128(),
            ;
            lemma_fundamental_div_mod_converse(self@ as int, p as int, r@ as int, (self.lo % p) as int);
        }
        r
    }

    /// The value times `m`, or `None` where it needs more than 256 bits.
    pub fn checked_mul_u128(self, m: u128) -> (r: Option<U256>)
        ensures
            r is Some <==> self@ * m < pow256(),
            r matches Some(p) ==> p@ == self@ * m,
    {
        let low = full_mul_u128(self.lo, m);
        let high = full_mul_u128(self.hi, m);
        proof {
            assert(self@ * m == high@ * pow128() + low@) by (nonlinear_arith)
                requires
                    self@ == self.hi * pow128() + self.lo,
                    low@ == self.lo * m,
                    high@ == self.hi * m,
            ;
        }
        if high.hi != 0 || high.lo > u128::MAX - low.hi {
            proof {
                assert(high@ * pow128() + low@ >= pow256()) by (nonlinear_arith)
                    requires
                        high.hi != 0 || high.lo + low.hi >= pow128(),
                        high@ == high.hi * pow128() + high.lo,
                        low@ == low.hi * pow128() + low.lo,
                        pow256() == pow128() * pow128(),
                ;
            }
            None
        } else {
            let r = U256 { lo: low.lo, hi: high.lo + low.hi };
            proof {
                lemma_u256_bound(r);
            }
            Some(r)
        }
    }

    /// Quotient and remainder of division by a non-zero `d`.
    pub fn div_mod(self, d: U256) -> (r: (U256, U256))
        requires
            d@ > 0,
        ensures
            r.0@ == self@ / d@,
            r.1@ == self@ % d@,
    {
        if self.lt(&d) {
            proof {
                lemma_fundamental_div_mod_converse(self@ as int, d@ as int, 0, self@ as int);
            }
            return (U256::zero(), self);
        }
        let mut ds = d;
        let mut qs = U256::one();
        let mut k: u32 = 0;
        proof {
            lemma2_to64();
            lemma_u256_bound(self);
        }
        loop
            invariant
                ds@ == d@ * pow2(k as nat),
                qs@ == pow2(k as nat),
                ds@ <= self@,
                self@ < pow256(),
                d@ > 0,
            ensures
                ds@ == d@ * pow2(k as nat),
                qs@ == pow2(k as nat),
                ds@ <= self@,
                self@ < 2 * ds@,
            decreases pow256() - ds@,
        {
            assert(qs@ <= ds@) by (nonlinear_arith)
                requires
                    ds@ == d@ * qs@,
                    d@ > 0,
            ;
            if ds.hi >= TOP_BIT {
                break;
            }
            let dd = ds.double();
            if self.lt(&dd) {
                break;
            }
            proof {
                lemma_mul_pow2_succ(d@, k as nat);
                lemma_pow2_bounds();
                lemma_u256_bound(dd);
                lemma_pow2_pos(k as nat);
                if k >= 255 {
                    if k > 255 {
                        lemma_pow2_strictly_increases(255, k as nat);
                    }
                }
            }
            ds = dd;
            qs = qs.double();
            k = k + 1;
        }
        let mut q = U256::zero();
        let mut rem = self;
        loop
            invariant
                ds@ == d@ * pow2(k as nat),
                qs@ == pow2(k as nat),
                self@ == q@ * d@ + rem@,
                rem@ < 2 * ds@,
                d@ > 0,
            ensures
                self@ == q@ * d@ + rem@,
                rem@ < d@,
            decreases k,
        {
            if ds.le(&rem) {
                let rem2 = rem.checked_sub(ds).unwrap();
                proof {
                    lemma_u256_bound(self);
                    assert((q@ + qs@) * d@ == q@ * d@ + ds@ && q@ + qs@ <= self@) by (nonlinear_arith)
                        requires
                            ds@ == d@ * qs@,
                            self@ == q@ * d@ + rem@,
                            ds@ <= rem@,
                            d@ > 0,
                    ;
                }
                q = q.checked_add(qs).unwrap();
                rem = rem2;
            }
            if k == 0 {
                proof {
                    lemma2_to64();
                }
                break;
            }
            proof {
                lemma_mul_pow2_succ(d@, (k - 1) as nat);
            }
            ds = ds.halve();
            qs = qs.halve();
            k = k - 1;
        }
        proof {
            lemma_fundamental_div_mod_converse(self@ as int, d@ as int, q@ as int, rem@ as int);
        }
        (q, rem)
    }
}

/// Widening into 256 bits.
pub trait Upcast {
    fn as_u256(self) -> U256;
}

impl Upcast for u128 {
    fn as_u256(self) -> (r: U256)
        ensures
            r@ == self,
    {
        U256::from_u128(self)
    }
}

/// Narrowing out of 256 bits.
pub trait Downcast: Sized {
    /// The number the value stands for.
    spec fn wide_value(self) -> nat;

    fn as_u128(self) -> u128
        requires
            self.wide_value() <= u128::MAX,
    ;

    fn as_u64(self) -> u64
        requires
            self.wide_value() <= u64::MAX,
    ;

    fn checked_as_u128(self) -> Option<u128>;

    fn checked_as_u64(self) -> Option<u64>;

    fn is_zero(self) -> bool;
}

impl Downcast for U256 {
    open spec fn wide_value(self) -> nat {
        self@
    }

    fn as_u128(self) -> (r: u128)
        ensures
            r == self@,
    {
        self.lo
    }

    fn as_u64(self) -> (r: u64)
        ensures
            r == self@,
    {
        self.lo as u64
    }

    fn checked_as_u128(self) -> (r: Option<u128>)
        ensures
            r is Some <==> self@ <= u128::MAX,
            r matches Some(v) ==> v == self@,
    {
        if self.hi != 0 {
            return None;
        }
        Some(self.lo)
    }

    fn checked_as_u64(self) -> (r: Option<u64>)
        ensures
            r is Some <==> self@ <= u64::MAX,
            r matches Some(v) ==> v == self@,
    {
        if self.hi != 0 || self.lo > U64_MAX {
            return None;
        }
        Some(self.lo as u64)
    }

    fn is_zero(self) -> (r: bool)
        ensures
            r == (self@ == 0),
    {
        self.hi == 0 && self.lo == 0
    }
}

/// The two 64-bit words of a 128-bit integer.
pub trait LowHigh {
    fn lo(self) -> u64;

    fn hi(self) -> u64;

    fn lo_u128(self) -> u128;

    fn hi_u128(self) -> u128;

    fn from_hi_lo(hi: u64, lo: u64) -> u128;
}

impl LowHigh for u128 {
    fn lo(self) -> (r: u64)
        ensures
            r == self as nat % pow64(),
    {
        (self % WORD) as u64
    }

    fn hi(self) -> (r: u64)
        ensures
            r == self as nat / pow64(),
    {
        (self / WORD) as u64
    }

    fn lo_u128(self) -> (r: u128)
        ensures
            r == self as nat % pow64(),
    {
        self % WORD
    }

    fn hi_u128(self) -> (r: u128)
        ensures
            r == self as nat / pow64(),
    {
        self / WORD
    }

    fn from_hi_lo(hi: u64, lo: u64) -> (r: u128)
        ensures
            r == hi * pow64() + lo,
    {
        hi as u128 * WORD + lo as u128
    }
}

/// Shifts that drop the bits moved past either end.
pub trait Shift: Sized {
    type Output;

    fn shift_left(self, num: u32) -> Self::Output;

    fn shift_word_left(self) -> Self::Output;

    fn checked_shift_word_left(self) -> Option<Self::Output>;

    fn shift_right(self, num: u32) -> Self::Output;

    fn shift_word_right(self) -> Self::Output;
}

pub proof fn lemma_div_pow2_add(x: nat, a: nat, b: nat)
    ensures
        x / pow2(a) / pow2(b) == x / pow2(a + b),
{
    lemma_pow2_pos(a);
    lemma_pow2_pos(b);
    lemma_div_denominator(x as int, pow2(a) as int, pow2(b) as int);
    lemma_pow2_adds(a, b);
}

proof fn lemma_mul_pow2_mod_add(x: nat, a: nat, b: nat)
    ensures
        ((x * pow2(a)) % pow256()) * pow2(b) % pow256() == (x * pow2(a + b)) % pow256(),
{
    lemma_mul_mod_noop_left((x * pow2(a)) as int, pow2(b) as int, pow256() as int);
    lemma_pow2_adds(a, b);
    lemma_mul_is_associative(x as int, pow2(a) as int, pow2(b) as int);
}

impl Shift for U256 {
    type Output = U256;

    fn shift_left(self, num: u32) -> (r: U256)
        ensures
            r@ == (self@ * pow2(num as nat)) % pow256(),
    {
        proof {
            lemma_pow2_bounds();
            lemma2_to64();
        }
        if num >= 256u32 {
            proof {
                lemma_pow2_adds(256, (num - 256) as nat);
                assert(self@ * pow2(num as nat) == (self@ * pow2((num - 256) as nat)) * pow256())
                    by (nonlinear_arith)
                    requires
                        pow2(num as nat) == pow256() * pow2((num - 256) as nat),
                ;
                lemma_mod_multiples_basic((self@ * pow2((num - 256) as nat)) as int, pow256() as int);
            }
            return U256::zero();
        }
        let mut result = self;
        let mut n: u32 = num;
        proof {
            lemma_u256_bound(self);
            lemma_small_mod(self@, pow256());
            assert(self@ * pow2(0) == self@);
        }
        while n >= 64
            invariant
                n <= num,
                result@ == (self@ * pow2((num - n) as nat)) % pow256(),
                pow2(64) == pow64(),
            decreases n,
        {
            proof {
                lemma_mul_pow2_mod_add(self@, (num - n) as nat, 64);
            }
            result = result.shift_word_left();
            n = n - 64;
        }
        while n > 0
            invariant
                n <= num,
                result@ == (self@ * pow2((num - n) as nat)) % pow256(),
            decreases n,
        {
            proof {
                lemma_mul_pow2_mod_add(self@, (num - n) as nat, 1);
                lemma2_to64();
            }
            result = result.wrapping_double();
            n = n - 1;
        }
        result
    }

    fn shift_word_left(self) -> (r: U256)
        ensures
            r@ == (self@ * pow64()) % pow256(),
    {
        let r = U256 { lo: (self.lo % WORD) * WORD, hi: (self.hi % WORD) * WORD + self.lo / WORD };
        proof {
            lemma_u256_bound(r);
            let q = (self.hi / WORD) as int;
            assert(self@ * pow64() == q * pow256() + r@) by (nonlinear_arith)
                requires
                    self.hi == q * WORD + self.hi % WORD,
                    self.lo == (self.lo / WORD) * WORD + self.lo % WORD,
                    r@ == ((self.hi % WORD) * WORD + self.lo / WORD) * pow128() + (self.lo % WORD)
                        * WORD,
                    self@ == self.hi * pow128() + self.lo,
                    WORD == pow64(),
                    pow128() == pow64() * pow64(),
                    pow256() == pow128() * pow128(),
            ;
            lemma_fundamental_div_mod_converse((self@ * pow64()) as int, pow256() as int, q, r@ as int);
        }
        r
    }

    fn checked_shift_word_left(self) -> (r: Option<U256>)
        ensures
            r is Some <==> self@ * pow64() < pow256(),
            r matches Some(v) ==> v@ == self@ * pow64(),
    {
        if self.hi >= WORD {
            proof {
                assert(self@ * pow64() >= pow256()) by (nonlinear_arith)
                    requires
                        self.hi >= pow64(),
                        self@ == self.hi * pow128() + self.lo,
                        pow128() == pow64() * pow64(),
                        pow256() == pow128() * pow128(),
                ;
            }
            return None;
        }
        proof {
            assert(self@ * pow64() < pow256()) by (nonlinear_arith)
                requires
                    self.hi < pow64(),
                    self.lo < pow128(),
                    self@ == self.hi * pow128() + self.lo,
                    pow128() == pow64() * pow64(),
                    pow256() == pow128() * pow128(),
            ;
            lemma_small_mod(self@ * pow64(), pow256());
        }
        Some(self.shift_word_left())
    }

    fn shift_right(self, num: u32) -> (r: U256)
        ensures
            r@ == self@ / pow2(num as nat),
    {
        proof {
            lemma_pow2_bounds();
            lemma2_to64();
        }
        if num >= 256u32 {
            proof {
                lemma_u256_bound(self);
                if num > 256 {
                    lemma_pow2_strictly_increases(256, num as nat);
                }
                lemma_fundamental_div_mod_converse(self@ as int, pow2(num as nat) as int, 0, self@ as int);
            }
            return U256::zero();
        }
        let mut result = self;
        let mut n: u32 = num;
        proof {
            lemma_div_basics(self@ as int);
        }
        while n >= 64
            invariant
                n <= num,
                result@ == self@ / pow2((num - n) as nat),
                pow2(64) == pow64(),
            decreases n,
        {
            proof {
                lemma_div_pow2_add(self@, (num - n) as nat, 64);
            }
            result = result.shift_word_right();
            n = n - 64;
        }
        proof {
            lemma_div_pow2_add(self@, (num - n) as nat, n as nat);
        }
        result.shr_small(n)
    }

    fn shift_word_right(self) -> (r: U256)
        ensures
            r@ == self@ / pow64(),
    {
        let r = U256 { lo: (self.hi % WORD) * WORD + self.lo / WORD, hi: self.hi / WORD };
        proof {
            assert(self@ == r@ * pow64() + self.lo % WORD) by (nonlinear_arith)
                requires
                    self.hi == (self.hi / WORD) * WORD + self.hi % WORD,
                    self.lo == (self.lo / WORD) * WORD + self.lo % WORD,
                    r@ == (self.hi / WORD) * pow128() + (self.hi % WORD) * WORD + self.lo / WORD,
                    self@ == self.hi * pow128() + self.lo,
                    WORD == pow64(),
                    pow128() == pow64() * pow64(),
            ;
            lemma_fundamental_div_mod_converse(self@ as int, pow64() as int, r@ as int, (self.lo % WORD) as int);
        }
        r
    }
}

/// The exact 256-bit product of two 128-bit integers.
pub fn full_mul_u128(a: u128, b: u128) -> (r: U256)
    ensures
        r@ == a * b,
{
    let a0 = a % WORD;
    let a1 = a / WORD;
    let b0 = b % WORD;
    let b1 = b / WORD;
    proof {
        assert(a0 * b0 <= U64_MAX * U64_MAX && a0 * b1 <= U64_MAX * U64_MAX && a1 * b0 <= U64_MAX
            * U64_MAX && a1 * b1 <= U64_MAX * U64_MAX) by (nonlinear_arith)
            requires
                a0 <= U64_MAX,
                a1 <= U64_MAX,
                b0 <= U64_MAX,
                b1 <= U64_MAX,
        ;
    }
    let p00 = a0 * b0;
    let p01 = a0 * b1;
    let p10 = a1 * b0;
    let p11 = a1 * b1;
    let mid = p00 / WORD + p01 % WORD + p10 % WORD;
    let lo = (mid % WORD) * WORD + p00 % WORD;
    proof {
        assert(a * b == p11 * pow128() + (p01 + p10) * pow64() + p00) by (nonlinear_arith)
            requires
                a == a1 * pow64() + a0,
                b == b1 * pow64() + b0,
                p00 == a0 * b0,
                p01 == a0 * b1,
                p10 == a1 * b0,
                p11 == a1 * b1,
                pow128() == pow64() * pow64(),
        ;
        let hi_int = p11 + mid / WORD + p01 / WORD + p10 / WORD;
        assert(a * b == hi_int * pow128() + lo) by (nonlinear_arith)
            requires
                a * b == p11 * pow128() + (p01 + p10) * pow64() + p00,
                p00 == (p00 / WORD) * pow64() + p00 % WORD,
                p01 == (p01 / WORD) * pow64() + p01 % WORD,
                p10 == (p10 / WORD) * pow64() + p10 % WORD,
                mid == p00 / WORD + p01 % WORD + p10 % WORD,
                mid == (mid / WORD) * pow64() + mid % WORD,
                lo == (mid % WORD) * pow64() + p00 % WORD,
                hi_int == p11 + mid / WORD + p01 / WORD + p10 / WORD,
                pow128() == pow64() * pow64(),
        ;
        assert(hi_int < pow128()) by (nonlinear_arith)
            requires
                a * b == hi_int * pow128() + lo,
                0 <= lo,
                a < pow128(),
                b < pow128(),
        ;
    }
    let hi = p11 + mid / WORD + p01 / WORD + p10 / WORD;
    U256 { lo, hi }
}

} // verus!
