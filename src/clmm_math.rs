//! Token amounts, liquidity and price movement within one price range, and
//! the single bounded step of a swap.
use crate::bn::{full_mul_u128, pow128, pow256, pow64, Downcast, Shift, U256};
use crate::error::ErrorCode;
use crate::full_math::{div_round_up_if, div_rounded, DivRoundUpIf, FullMath, Rounding};
use crate::tick_math::{sqrt_price_at_tick_result, get_sqrt_price_at_tick, MAX_SQRT_PRICE_X64, MIN_SQRT_PRICE_X64};
use vstd::arithmetic::div_mod::*;
use vstd::prelude::*;

verus! {

pub const FEE_RATE_DENOMINATOR: u128 = 1_000_000;

/// What one step of a swap moved.
#[derive(Clone, Copy, Debug, PartialEq, Eq, Structural)]
pub struct SwapStepResult {
    pub next_sqrt_price: u128,
    pub amount_in: u128,
    pub amount_out: u128,
    pub fee_amount: u128,
}

/// `|a - b|`.
pub open spec fn abs_diff(a: u128, b: u128) -> nat {
    if a > b {
        (a - b) as nat
    } else {
        (b - a) as nat
    }
}

/// A 256-bit quotient brought back to 128 bits.
pub open spec fn narrow(q: nat) -> Result<u128, ErrorCode> {
    if q <= u128::MAX {
        Ok(q as u128)
    } else {
        Err(ErrorCode::IntegerDowncastOverflow)
    }
}

/// Liquidity that `amount_a` of token A spans between two prices:
/// `sqrt_price_0 * sqrt_price_1 * amount_a / (|sqrt_price_0 - sqrt_price_1| * 2^64)`.
pub open spec fn liquidity_from_a(
    sqrt_price_0: u128,
    sqrt_price_1: u128,
    amount_a: u128,
    round_up: bool,
) -> Result<u128, ErrorCode> {
    let num = sqrt_price_0 * sqrt_price_1 * amount_a;
    let den = abs_diff(sqrt_price_0, sqrt_price_1) * pow64();
    if num >= pow256() {
        Err(ErrorCode::MultiplicationOverflow)
    } else if den == 0 {
        Err(ErrorCode::DivisorIsZero)
    } else {
        narrow(div_round_up_if(num as nat, den, round_up))
    }
}

/// Liquidity that `amount_b` of token B spans between two prices:
/// `amount_b * 2^64 / |sqrt_price_0 - sqrt_price_1|`.
pub open spec fn liquidity_from_b(
    sqrt_price_0: u128,
    sqrt_price_1: u128,
    amount_b: u128,
    round_up: bool,
) -> Result<u128, ErrorCode> {
    let den = abs_diff(sqrt_price_0, sqrt_price_1);
    if den == 0 {
        Err(ErrorCode::DivisorIsZero)
    } else {
        narrow(div_round_up_if((amount_b * pow64()) as nat, den, round_up))
    }
}

/// Token A that `liquidity` holds between two prices:
/// `liquidity * |sqrt_price_0 - sqrt_price_1| * 2^64 / (sqrt_price_0 * sqrt_price_1)`.
pub open spec fn delta_a(
    sqrt_price_0: u128,
    sqrt_price_1: u128,
    liquidity: u128,
    round_up: bool,
) -> Result<u128, ErrorCode> {
    let num = liquidity * abs_diff(sqrt_price_0, sqrt_price_1) * pow64();
    let den = sqrt_price_0 * sqrt_price_1;
    if num >= pow256() {
        Err(ErrorCode::MultiplicationOverflow)
    } else if den == 0 {
        Err(ErrorCode::DivisorIsZero)
    } else {
        narrow(div_round_up_if(num as nat, den as nat, round_up))
    }
}

/// Token B that `liquidity` holds between two prices:
/// `liquidity * |sqrt_price_0 - sqrt_price_1| / 2^64`.
pub open spec fn delta_b(
    sqrt_price_0: u128,
    sqrt_price_1: u128,
    liquidity: u128,
    round_up: bool,
) -> Result<u128, ErrorCode> {
    let q = div_round_up_if((liquidity * abs_diff(sqrt_price_0, sqrt_price_1)) as nat, pow64(), round_up);
    if q <= u128::MAX {
        Ok(q as u128)
    } else {
        Err(ErrorCode::MultiplicationOverflow)
    }
}

/// A computed square-root price checked against the price bounds.
pub open spec fn bounded_price(p: nat) -> Result<u128, ErrorCode> {
    if p > MAX_SQRT_PRICE_X64 {
        Err(ErrorCode::TokenAmountMaxExceeded)
    } else if p < MIN_SQRT_PRICE_X64 {
        Err(ErrorCode::TokenAmountMinSubceeded)
    } else {
        Ok(p as u128)
    }
}

/// The price after `amount` of token A enters (`by_amount_input`) or leaves
/// the pool at fixed liquidity, rounded up:
/// `sqrt_price * liquidity * 2^64 / (liquidity * 2^64 +- amount * sqrt_price)`.
pub open spec fn next_sqrt_price_a_up(
    sqrt_price: u128,
    liquidity: u128,
    amount: u128,
    by_amount_input: bool,
) -> Result<u128, ErrorCode> {
    let num = sqrt_price * liquidity * pow64();
    let product = sqrt_price * amount;
    let base = liquidity * pow64();
    if amount == 0 {
        Ok(sqrt_price)
    } else if num >= pow256() {
        Err(ErrorCode::MultiplicationOverflow)
    } else if by_amount_input && base + product >= pow256() {
        Err(ErrorCode::MultiplicationOverflow)
    } else if !by_amount_input && product > base {
        Err(ErrorCode::TokenAmountMaxExceeded)
    } else {
        let den = if by_amount_input {
            base + product
        } else {
            base - product
        };
        if den == 0 {
            Err(ErrorCode::DivisorIsZero)
        } else {
            match narrow(div_round_up_if(num as nat, den as nat, true)) {
                Ok(p) => bounded_price(p as nat),
                Err(e) => Err(e),
            }
        }
    }
}

/// The price after `amount` of token B enters (`by_amount_input`) or leaves
/// the pool at fixed liquidity: `sqrt_price +- amount * 2^64 / liquidity`,
/// the quotient rounded up where the amount leaves.
pub open spec fn next_sqrt_price_b_down(
    sqrt_price: u128,
    liquidity: u128,
    amount: u128,
    by_amount_input: bool,
) -> Result<u128, ErrorCode> {
    if amount * pow64() >= pow128() {
        Err(ErrorCode::MultiplicationOverflow)
    } else if liquidity == 0 {
        Err(ErrorCode::DivisorIsZero)
    } else {
        let delta = div_round_up_if((amount * pow64()) as nat, liquidity as nat, !by_amount_input);
        let p = if by_amount_input {
            sqrt_price + delta
        } else {
            sqrt_price - delta
        };
        if p < MIN_SQRT_PRICE_X64 || p > MAX_SQRT_PRICE_X64 {
            Err(ErrorCode::SqrtPriceOutOfBounds)
        } else {
            Ok(p as u128)
        }
    }
}

/// `Err(e)` of a result narrowed to 128 bits, or its value.
fn narrow_u256(q: U256) -> (r: Result<u128, ErrorCode>)
    ensures
        r == narrow(q@),
{
    match q.checked_as_u128() {
        Some(v) => Ok(v),
        None => Err(ErrorCode::IntegerDowncastOverflow),
    }
}

fn sqrt_price_diff(sqrt_price_0: u128, sqrt_price_1: u128) -> (r: u128)
    ensures
        r == abs_diff(sqrt_price_0, sqrt_price_1),
{
    if sqrt_price_0 > sqrt_price_1 {
        sqrt_price_0 - sqrt_price_1
    } else {
        sqrt_price_1 - sqrt_price_0
    }
}

/// `x * 2^64` for `x` below 2^192.
fn shift_word_left_exact(x: U256) -> (r: U256)
    requires
        x@ * pow64() < pow256(),
    ensures
        r@ == x@ * pow64(),
{
    let r = x.shift_word_left();
    proof {
        lemma_small_mod(x@ * pow64(), pow256());
    }
    r
}

/// `liquidity = sqrt_price_0 * sqrt_price_1 * amount_a / (delta_sqrt_price * 2^64)`
pub fn get_liquidity_from_a(
    sqrt_price_0: u128,
    sqrt_price_1: u128,
    amount_a: u128,
    round_up: bool,
) -> (r: Result<u128, ErrorCode>)
    ensures
        r == liquidity_from_a(sqrt_price_0, sqrt_price_1, amount_a, round_up),
{
    let sqrt_price_diff = sqrt_price_diff(sqrt_price_0, sqrt_price_1);
    let numberator = match full_mul_u128(sqrt_price_0, sqrt_price_1).checked_mul_u128(amount_a) {
        Some(n) => n,
        None => return Err(ErrorCode::MultiplicationOverflow),
    };
    proof {
        assert(sqrt_price_diff * pow64() < pow256()) by (nonlinear_arith)
            requires
                sqrt_price_diff < pow128(),
                pow256() == pow128() * pow128(),
                pow64() < pow128(),
        ;
    }
    let den = shift_word_left_exact(U256::from_u128(sqrt_price_diff));
    match numberator.checked_div_round_up_if(den, round_up) {
        Some(q) => narrow_u256(q),
        None => Err(ErrorCode::DivisorIsZero),
    }
}

/// `liquidity = amount_b * 2^64 / delta_sqrt_price`
pub fn get_liquidity_from_b(
    sqrt_price_0: u128,
    sqrt_price_1: u128,
    amount_b: u128,
    round_up: bool,
) -> (r: Result<u128, ErrorCode>)
    ensures
        r == liquidity_from_b(sqrt_price_0, sqrt_price_1, amount_b, round_up),
{
    let sqrt_price_diff = sqrt_price_diff(sqrt_price_0, sqrt_price_1);
    proof {
        assert(amount_b * pow64() < pow256()) by (nonlinear_arith)
            requires
                amount_b < pow128(),
                pow256() == pow128() * pow128(),
                pow64() < pow128(),
        ;
    }
    let num = shift_word_left_exact(U256::from_u128(amount_b));
    match num.checked_div_round_up_if(U256::from_u128(sqrt_price_diff), round_up) {
        Some(q) => narrow_u256(q),
        None => Err(ErrorCode::DivisorIsZero),
    }
}

/// Gets the amount_a delta between two prices, for given amount of liquidity:
/// `delta_a = (liquidity * delta_sqrt_price) / (sqrt_price_upper * sqrt_price_lower)`
pub fn get_delta_a(
    sqrt_price_0: u128,
    sqrt_price_1: u128,
    liquidity: u128,
    round_up: bool,
) -> (r: Result<u128, ErrorCode>)
    ensures
        r == delta_a(sqrt_price_0, sqrt_price_1, liquidity, round_up),
{
    let sqrt_price_diff = sqrt_price_diff(sqrt_price_0, sqrt_price_1);
    let numberator = match liquidity.full_mul(sqrt_price_diff).checked_shift_word_left() {
        Some(n) => n,
        None => return Err(ErrorCode::MultiplicationOverflow),
    };
    let denomminator = sqrt_price_0.full_mul(sqrt_price_1);
    match numberator.checked_div_round_up_if(denomminator, round_up) {
        Some(q) => narrow_u256(q),
        None => Err(ErrorCode::DivisorIsZero),
    }
}

/// Gets the amount_b delta between two prices, for given amount of liquidity:
/// `delta_b = delta_sqrt_price * liquidity`
pub fn get_delta_b(
    sqrt_price_0: u128,
    sqrt_price_1: u128,
    liquidity: u128,
    round_up: bool,
) -> (r: Result<u128, ErrorCode>)
    ensures
        r == delta_b(sqrt_price_0, sqrt_price_1, liquidity, round_up),
{
    let sqrt_price_diff = sqrt_price_diff(sqrt_price_0, sqrt_price_1);
    if liquidity == 0 || sqrt_price_diff == 0 {
        proof {
            lemma_div_basics(0);
        }
        return Ok(0);
    }
    let product = liquidity.full_mul(sqrt_price_diff);
    let should_round_up = round_up && product.lo % 0x1_0000_0000_0000_0000 > 0;
    let result = match product.shift_word_right().checked_as_u128() {
        Some(v) => v,
        None => {
            return Err(ErrorCode::MultiplicationOverflow);
        },
    };
    proof {
        let n = liquidity * sqrt_price_diff;
        lemma_fundamental_div_mod(n as int, pow64() as int);
        assert(n % pow64() as int == product.lo % 0x1_0000_0000_0000_0000) by (nonlinear_arith)
            requires
                n == product.hi * pow128() + product.lo,
                pow128() == pow64() * pow64(),
                pow64() == 0x1_0000_0000_0000_0000,
        ;
    }
    if should_round_up {
        match result.checked_add(1) {
            Some(v) => Ok(v),
            None => Err(ErrorCode::MultiplicationOverflow),
        }
    } else {
        Ok(result)
    }
}

/// Gets the next sqrt price from given a delta of token_a:
/// `sqrt_price_new = (sqrt_price * liquidity) / (liquidity +- amount * sqrt_price)`
pub fn get_next_sqrt_price_a_up(
    sqrt_price: u128,
    liquidity: u128,
    amount: u128,
    by_amount_input: bool,
) -> (r: Result<u128, ErrorCode>)
    ensures
        r == next_sqrt_price_a_up(sqrt_price, liquidity, amount, by_amount_input),
{
    if amount == 0 {
        return Ok(sqrt_price);
    }
    let numberator = match sqrt_price.full_mul(liquidity).checked_shift_word_left() {
        Some(n) => n,
        None => return Err(ErrorCode::MultiplicationOverflow),
    };
    proof {
        assert(liquidity * pow64() < pow256()) by (nonlinear_arith)
            requires
                liquidity < pow128(),
                pow256() == pow128() * pow128(),
                pow64() < pow128(),
        ;
    }
    let liquidity_shl_64 = shift_word_left_exact(U256::from_u128(liquidity));
    let product = sqrt_price.full_mul(amount);
    let den = if by_amount_input {
        match liquidity_shl_64.checked_add(product) {
            Some(d) => d,
            None => return Err(ErrorCode::MultiplicationOverflow),
        }
    } else {
        match liquidity_shl_64.checked_sub(product) {
            Some(d) => d,
            None => return Err(ErrorCode::TokenAmountMaxExceeded),
        }
    };
    let quotient = match numberator.checked_div_round_up_if(den, true) {
        Some(q) => q,
        None => return Err(ErrorCode::DivisorIsZero),
    };
    let new_sqrt_price = match quotient.checked_as_u128() {
        Some(v) => v,
        None => return Err(ErrorCode::IntegerDowncastOverflow),
    };
    if new_sqrt_price > MAX_SQRT_PRICE_X64 {
        return Err(ErrorCode::TokenAmountMaxExceeded);
    } else if new_sqrt_price < MIN_SQRT_PRICE_X64 {
        return Err(ErrorCode::TokenAmountMinSubceeded);
    }
    Ok(new_sqrt_price)
}

/// Gets the next sqrt price given a delta of token_b:
/// `new_sqrt_price = sqrt_price +- (delta_b / liquidity)`
pub fn get_next_sqrt_price_b_down(
    sqrt_price: u128,
    liquidity: u128,
    amount: u128,
    by_amount_input: bool,
) -> (r: Result<u128, ErrorCode>)
    ensures
        r == next_sqrt_price_b_down(sqrt_price, liquidity, amount, by_amount_input),
{
    if amount > 0xffff_ffff_ffff_ffff {
        proof {
            assert(amount * pow64() >= pow128()) by (nonlinear_arith)
                requires
                    amount >= pow64(),
                    pow128() == pow64() * pow64(),
            ;
        }
        return Err(ErrorCode::MultiplicationOverflow);
    }
    proof {
        assert(amount * pow64() < pow128()) by (nonlinear_arith)
            requires
                amount < pow64(),
                pow128() == pow64() * pow64(),
        ;
    }
    let shifted = amount * 0x1_0000_0000_0000_0000;
    let delta_sqrt_price = match shifted.checked_div_round_up_if(liquidity, !by_amount_input) {
        Some(d) => d,
        None => return Err(ErrorCode::DivisorIsZero),
    };
    let new_sqrt_price = if by_amount_input {
        match sqrt_price.checked_add(delta_sqrt_price) {
            Some(p) => p,
            None => return Err(ErrorCode::SqrtPriceOutOfBounds),
        }
    } else {
        match sqrt_price.checked_sub(delta_sqrt_price) {
            Some(p) => p,
            None => return Err(ErrorCode::SqrtPriceOutOfBounds),
        }
    };
    if new_sqrt_price < MIN_SQRT_PRICE_X64 || new_sqrt_price > MAX_SQRT_PRICE_X64 {
        return Err(ErrorCode::SqrtPriceOutOfBounds);
    }
    Ok(new_sqrt_price)
}

/// The price after `amount` enters: token A pushes the price down, token B up.
pub open spec fn next_sqrt_price_from_input(
    sqrt_price: u128,
    liquidity: u128,
    amount: u128,
    a_to_b: bool,
) -> Result<u128, ErrorCode> {
    if a_to_b {
        next_sqrt_price_a_up(sqrt_price, liquidity, amount, true)
    } else {
        next_sqrt_price_b_down(sqrt_price, liquidity, amount, true)
    }
}

/// The price after `amount` leaves: token B leaving pushes the price down, token A up.
pub open spec fn next_sqrt_price_from_output(
    sqrt_price: u128,
    liquidity: u128,
    amount: u128,
    a_to_b: bool,
) -> Result<u128, ErrorCode> {
    if a_to_b {
        next_sqrt_price_b_down(sqrt_price, liquidity, amount, false)
    } else {
        next_sqrt_price_a_up(sqrt_price, liquidity, amount, false)
    }
}

/// The input, rounded up, that moves the price from `current` to `target`.
pub open spec fn delta_up_from_input(
    current_sqrt_price: u128,
    target_sqrt_price: u128,
    liquidity: u128,
    a_to_b: bool,
) -> Result<u128, ErrorCode> {
    if a_to_b {
        delta_a(target_sqrt_price, current_sqrt_price, liquidity, true)
    } else {
        delta_b(current_sqrt_price, target_sqrt_price, liquidity, true)
    }
}

/// The output, rounded down, that moving the price from `current` to `target` releases.
pub open spec fn delta_down_from_output(
    current_sqrt_price: u128,
    target_sqrt_price: u128,
    liquidity: u128,
    a_to_b: bool,
) -> Result<u128, ErrorCode> {
    if a_to_b {
        delta_b(target_sqrt_price, current_sqrt_price, liquidity, false)
    } else {
        delta_a(current_sqrt_price, target_sqrt_price, liquidity, false)
    }
}

pub fn get_next_sqrt_price_from_input(
    sqrt_price: u128,
    liquidity: u128,
    amount: u128,
    a_to_b: bool,
) -> (r: Result<u128, ErrorCode>)
    ensures
        r == next_sqrt_price_from_input(sqrt_price, liquidity, amount, a_to_b),
{
    if a_to_b {
        get_next_sqrt_price_a_up(sqrt_price, liquidity, amount, true)
    } else {
        get_next_sqrt_price_b_down(sqrt_price, liquidity, amount, true)
    }
}

pub fn get_next_sqrt_price_from_output(
    sqrt_price: u128,
    liquidity: u128,
    amount: u128,
    a_to_b: bool,
) -> (r: Result<u128, ErrorCode>)
    ensures
        r == next_sqrt_price_from_output(sqrt_price, liquidity, amount, a_to_b),
{
    if a_to_b {
        get_next_sqrt_price_b_down(sqrt_price, liquidity, amount, false)
    } else {
        get_next_sqrt_price_a_up(sqrt_price, liquidity, amount, false)
    }
}

pub fn get_delta_up_from_input(
    current_sqrt_price: u128,
    target_sqrt_price: u128,
    liquidity: u128,
    a_to_b: bool,
) -> (r: Result<u128, ErrorCode>)
    ensures
        r == delta_up_from_input(current_sqrt_price, target_sqrt_price, liquidity, a_to_b),
{
    if a_to_b {
        get_delta_a(target_sqrt_price, current_sqrt_price, liquidity, true)
    } else {
        get_delta_b(current_sqrt_price, target_sqrt_price, liquidity, true)
    }
}

pub fn get_delta_down_from_output(
    current_sqrt_price: u128,
    target_sqrt_price: u128,
    liquidity: u128,
    a_to_b: bool,
) -> (r: Result<u128, ErrorCode>)
    ensures
        r == delta_down_from_output(current_sqrt_price, target_sqrt_price, liquidity, a_to_b),
{
    if a_to_b {
        get_delta_b(target_sqrt_price, current_sqrt_price, liquidity, false)
    } else {
        get_delta_a(current_sqrt_price, target_sqrt_price, liquidity, false)
    }
}

/// The fee charged on `amount_in` so that it makes up `fee_rate` parts per
/// million of `amount_in` plus the fee, rounded up.
pub open spec fn fee_on(amount_in: nat, fee_rate: u16) -> nat {
    div_rounded((amount_in * fee_rate) as nat, (FEE_RATE_DENOMINATOR - fee_rate) as nat, Rounding::Up)
}

/// One step of a swap from `current_sqrt_price` towards `target_sqrt_price`
/// at fixed liquidity, with `amount` the input (`by_amount_input`) or the
/// output still to be filled.
pub open spec fn swap_step(
    current_sqrt_price: u128,
    target_sqrt_price: u128,
    liquidity: u128,
    amount: u128,
    fee_rate: u16,
    by_amount_input: bool,
) -> Result<SwapStepResult, ErrorCode> {
    let a_to_b = current_sqrt_price >= target_sqrt_price;
    if liquidity == 0 {
        Ok(
            SwapStepResult {
                next_sqrt_price: target_sqrt_price,
                amount_in: 0,
                amount_out: 0,
                fee_amount: 0,
            },
        )
    } else if by_amount_input {
        let amount_remain = amount * (FEE_RATE_DENOMINATOR - fee_rate) / FEE_RATE_DENOMINATOR as int;
        match delta_up_from_input(current_sqrt_price, target_sqrt_price, liquidity, a_to_b) {
            Err(e) => Err(e),
            Ok(max_amount_in) => if max_amount_in > amount_remain {
                match next_sqrt_price_from_input(current_sqrt_price, liquidity, amount_remain as u128, a_to_b) {
                    Err(e) => Err(e),
                    Ok(next) => match delta_down_from_output(current_sqrt_price, next, liquidity, a_to_b) {
                        Err(e) => Err(e),
                        Ok(out) => Ok(
                            SwapStepResult {
                                next_sqrt_price: next,
                                amount_in: amount_remain as u128,
                                amount_out: out,
                                fee_amount: (amount - amount_remain) as u128,
                            },
                        ),
                    },
                }
            } else {
                match delta_down_from_output(current_sqrt_price, target_sqrt_price, liquidity, a_to_b) {
                    Err(e) => Err(e),
                    Ok(out) => Ok(
                        SwapStepResult {
                            next_sqrt_price: target_sqrt_price,
                            amount_in: max_amount_in,
                            amount_out: out,
                            fee_amount: fee_on(max_amount_in as nat, fee_rate) as u128,
                        },
                    ),
                }
            },
        }
    } else {
        match delta_down_from_output(current_sqrt_price, target_sqrt_price, liquidity, a_to_b) {
            Err(e) => Err(e),
            Ok(max_amount_out) => {
                let next = if max_amount_out > amount {
                    next_sqrt_price_from_output(current_sqrt_price, liquidity, amount, a_to_b)
                } else {
                    Ok(target_sqrt_price)
                };
                let amount_out = if max_amount_out > amount {
                    amount
                } else {
                    max_amount_out
                };
                match next {
                    Err(e) => Err(e),
                    Ok(next) => match delta_up_from_input(current_sqrt_price, next, liquidity, a_to_b) {
                        Err(e) => Err(e),
                        Ok(amount_in) => Ok(
                            SwapStepResult {
                                next_sqrt_price: next,
                                amount_in,
                                amount_out,
                                fee_amount: fee_on(amount_in as nat, fee_rate) as u128,
                            },
                        ),
                    },
                }
            },
        }
    }
}

proof fn lemma_fee_bounds(amount_in: nat, amount: nat, fee_rate: nat)
    requires
        fee_rate <= 0xffff,
        amount_in * 1_000_000 <= amount * (1_000_000 - fee_rate),
    ensures
        (amount_in * fee_rate + (1_000_000 - fee_rate) - 1) / (1_000_000 - fee_rate) as int
            <= amount - amount_in,
{
    let g = (1_000_000 - fee_rate) as int;
    assert(amount_in * fee_rate <= (amount - amount_in) * g) by (nonlinear_arith)
        requires
            amount_in * 1_000_000 <= amount * g,
            g == 1_000_000 - fee_rate,
    ;
    assert(amount_in * fee_rate + g - 1 < (amount - amount_in + 1) * g) by (nonlinear_arith)
        requires
            amount_in * fee_rate <= (amount - amount_in) * g,
            g > 0,
    ;
    lemma_multiply_divide_lt(amount_in * fee_rate + g - 1, g, amount - amount_in + 1 as int);
}

proof fn lemma_fee_fits(amount_in: nat, fee_rate: nat)
    requires
        fee_rate <= 0xffff,
    ensures
        (amount_in * fee_rate + (1_000_000 - fee_rate) - 1) / (1_000_000 - fee_rate) as int
            <= amount_in,
{
    let g = (1_000_000 - fee_rate) as int;
    assert(amount_in * fee_rate + g - 1 < g * (amount_in + 1)) by (nonlinear_arith)
        requires
            g == 1_000_000 - fee_rate,
            fee_rate <= 0xffff,
    ;
    lemma_multiply_divide_lt(amount_in * fee_rate + g - 1, g, amount_in + 1 as int);
}

proof fn lemma_ceil_at_least(n: nat, d: nat, k: nat, up: bool)
    requires
        d > 0,
        k * d <= n,
    ensures
        k <= div_round_up_if(n, d, up),
{
    lemma_fundamental_div_mod(n as int, d as int);
    assert(k <= n / d) by (nonlinear_arith)
        requires
            k * d <= n,
            n == d * (n / d) + n % d,
            n % d < d,
            d > 0,
    ;
}

proof fn lemma_ceil_at_most(n: nat, d: nat, k: nat, up: bool)
    requires
        d > 0,
        n <= k * d,
    ensures
        div_round_up_if(n, d, up) <= k,
{
    lemma_fundamental_div_mod(n as int, d as int);
    assert(n / d <= k && (n / d == k ==> n % d == 0)) by (nonlinear_arith)
        requires
            n <= k * d,
            n == d * (n / d) + n % d,
            0 <= n % d < d,
            d > 0,
    ;
}

proof fn lemma_below_ceil(n: nat, d: nat, m: nat)
    requires
        d > 0,
        m < div_round_up_if(n, d, true),
    ensures
        m * d < n,
{
    lemma_fundamental_div_mod(n as int, d as int);
    assert(m * d < n) by (nonlinear_arith)
        requires
            m < (if n % d != 0 { n / d + 1 } else { n / d }),
            n == d * (n / d) + n % d,
            0 <= n % d < d,
            d > 0,
    ;
}

proof fn lemma_below_floor(n: nat, d: nat, a: nat)
    requires
        d > 0,
        a < n / d,
    ensures
        a * d < n,
{
    lemma_fundamental_div_mod(n as int, d as int);
    assert(a * d < n) by (nonlinear_arith)
        requires
            a < n / d,
            n == d * (n / d) + n % d,
            0 <= n % d < d,
            d > 0,
    ;
}

/// The price a step reaches lies between the price it starts from and the
/// price it moves towards.
pub proof fn lemma_step_price_between(
    current_sqrt_price: u128,
    target_sqrt_price: u128,
    liquidity: u128,
    amount: u128,
    fee_rate: u16,
    by_amount_input: bool,
)
    ensures
        swap_step(current_sqrt_price, target_sqrt_price, liquidity, amount, fee_rate, by_amount_input) matches Ok(s)
            ==> (current_sqrt_price >= target_sqrt_price ==> target_sqrt_price <= s.next_sqrt_price
            <= current_sqrt_price) && (current_sqrt_price < target_sqrt_price ==> current_sqrt_price
            <= s.next_sqrt_price <= target_sqrt_price),
{
    let c = current_sqrt_price as nat;
    let t = target_sqrt_price as nat;
    let l = liquidity as nat;
    let w = pow64();
    let a_to_b = current_sqrt_price >= target_sqrt_price;
    if liquidity == 0 {
        return;
    }
    if by_amount_input {
        let m = (amount * (FEE_RATE_DENOMINATOR - fee_rate) / FEE_RATE_DENOMINATOR as int) as u128;
        match delta_up_from_input(current_sqrt_price, target_sqrt_price, liquidity, a_to_b) {
            Ok(max_in) => {
                if max_in > m {
                    match next_sqrt_price_from_input(current_sqrt_price, liquidity, m, a_to_b) {
                        Ok(p) => {
                            if a_to_b {
                                if m != 0 {
                                    let n1 = l * abs_diff(target_sqrt_price, current_sqrt_price) * w;
                                    let d1 = t * c;
                                    lemma_below_ceil(n1, d1, m as nat);
                                    let num = (c * l * w) as nat;
                                    let den = (l * w + c * m) as nat;
                                    assert(t * den <= num && num <= c * den) by (nonlinear_arith)
                                        requires
                                            m * d1 < n1,
                                            n1 == l * (c - t) * w,
                                            d1 == t * c,
                                            num == c * l * w,
                                            den == l * w + c * m,
                                            t <= c,
                                    ;
                                    lemma_ceil_at_least(num, den, t, true);
                                    lemma_ceil_at_most(num, den, c, true);
                                }
                            } else {
                                let n1 = l * abs_diff(current_sqrt_price, target_sqrt_price);
                                lemma_below_ceil(n1, w, m as nat);
                                let k = (t - c) as nat;
                                assert(m * w <= k * l) by (nonlinear_arith)
                                    requires
                                        m * w < n1,
                                        n1 == l * (t - c),
                                        k == t - c,
                                ;
                                lemma_ceil_at_most((m * w) as nat, l, k, false);
                            }
                        },
                        Err(_) => {},
                    }
                }
            },
            Err(_) => {},
        }
    } else {
        match delta_down_from_output(current_sqrt_price, target_sqrt_price, liquidity, a_to_b) {
            Ok(max_out) => {
                if max_out > amount {
                    if a_to_b {
                        let n1 = l * abs_diff(target_sqrt_price, current_sqrt_price);
                        lemma_below_floor(n1, w, amount as nat);
                        let k = (c - t) as nat;
                        assert(amount * w <= k * l) by (nonlinear_arith)
                            requires
                                amount * w < n1,
                                n1 == l * (c - t),
                                k == c - t,
                        ;
                        lemma_ceil_at_most((amount * w) as nat, l, k, true);
                    } else if amount != 0 {
                        let n1 = l * abs_diff(current_sqrt_price, target_sqrt_price) * w;
                        let d1 = c * t;
                        if d1 > 0 {
                            lemma_below_floor(n1, d1, amount as nat);
                            let num = (c * l * w) as nat;
                            let den = l * w - c * amount;
                            if den > 0 {
                                assert(num <= t * den && c * den <= num) by (nonlinear_arith)
                                    requires
                                        amount * d1 < n1,
                                        n1 == l * (t - c) * w,
                                        d1 == c * t,
                                        num == c * l * w,
                                        den == l * w - c * amount,
                                        c < t,
                                        den > 0,
                                ;
                                lemma_ceil_at_most(num, den as nat, t, true);
                                lemma_ceil_at_least(num, den as nat, c, true);
                            }
                        }
                    }
                }
            },
            Err(_) => {},
        }
    }
}

/// One bounded step of a swap. Where the input is given, the input and fee
/// together never exceed it; where the output is given, the output never
/// exceeds it.
pub fn compute_swap_step(
    current_sqrt_price: u128,
    target_sqrt_price: u128,
    liquidity: u128,
    amount: u128,
    fee_rate: u16,
    by_amount_input: bool,
) -> (r: Result<SwapStepResult, ErrorCode>)
    ensures
        r == swap_step(current_sqrt_price, target_sqrt_price, liquidity, amount, fee_rate, by_amount_input),
        r matches Ok(s) ==> (by_amount_input ==> s.amount_in + s.fee_amount <= amount) && (
        !by_amount_input ==> s.amount_out <= amount),
        r matches Ok(s) ==> (current_sqrt_price >= target_sqrt_price ==> target_sqrt_price
            <= s.next_sqrt_price <= current_sqrt_price) && (current_sqrt_price < target_sqrt_price
            ==> current_sqrt_price <= s.next_sqrt_price <= target_sqrt_price),
{
    proof {
        lemma_step_price_between(
            current_sqrt_price,
            target_sqrt_price,
            liquidity,
            amount,
            fee_rate,
            by_amount_input,
        );
    }
    if liquidity == 0 {
        return Ok(
            SwapStepResult {
                amount_in: 0u128,
                amount_out: 0u128,
                next_sqrt_price: target_sqrt_price,
                fee_amount: 0u128,
            },
        );
    }
    let a_to_b = current_sqrt_price >= target_sqrt_price;
    let fee_denominator = FEE_RATE_DENOMINATOR - fee_rate as u128;
    if by_amount_input {
        proof {
            assert(amount * fee_denominator / 1_000_000 as int <= amount) by (nonlinear_arith)
                requires
                    fee_denominator <= 1_000_000,
            ;
        }
        let amount_remain = amount.mul_div_floor(fee_denominator, FEE_RATE_DENOMINATOR);
        let max_amount_in = get_delta_up_from_input(
            current_sqrt_price,
            target_sqrt_price,
            liquidity,
            a_to_b,
        )?;
        if max_amount_in > amount_remain {
            let next_sqrt_price = get_next_sqrt_price_from_input(
                current_sqrt_price,
                liquidity,
                amount_remain,
                a_to_b,
            )?;
            let amount_out = get_delta_down_from_output(
                current_sqrt_price,
                next_sqrt_price,
                liquidity,
                a_to_b,
            )?;
            Ok(
                SwapStepResult {
                    amount_in: amount_remain,
                    amount_out,
                    next_sqrt_price,
                    fee_amount: amount - amount_remain,
                },
            )
        } else {
            proof {
                assert(amount_remain * 1_000_000 <= amount * fee_denominator) by (nonlinear_arith)
                    requires
                        amount_remain == amount * fee_denominator / 1_000_000 as int,
                ;
                lemma_fee_bounds(max_amount_in as nat, amount as nat, fee_rate as nat);
            }
            let fee_amount = max_amount_in.mul_div_ceil(fee_rate as u128, fee_denominator);
            let amount_out = get_delta_down_from_output(
                current_sqrt_price,
                target_sqrt_price,
                liquidity,
                a_to_b,
            )?;
            Ok(
                SwapStepResult {
                    amount_in: max_amount_in,
                    amount_out,
                    next_sqrt_price: target_sqrt_price,
                    fee_amount,
                },
            )
        }
    } else {
        let max_amount_out = get_delta_down_from_output(
            current_sqrt_price,
            target_sqrt_price,
            liquidity,
            a_to_b,
        )?;
        let (amount_out, next_sqrt_price) = if max_amount_out > amount {
            (amount, get_next_sqrt_price_from_output(current_sqrt_price, liquidity, amount, a_to_b)?)
        } else {
            (max_amount_out, target_sqrt_price)
        };
        let amount_in = get_delta_up_from_input(
            current_sqrt_price,
            next_sqrt_price,
            liquidity,
            a_to_b,
        )?;
        proof {
            lemma_fee_fits(amount_in as nat, fee_rate as nat);
        }
        let fee_amount = amount_in.mul_div_ceil(fee_rate as u128, fee_denominator);
        Ok(SwapStepResult { amount_in, amount_out, next_sqrt_price, fee_amount })
    }
}

/// Liquidity and token amounts of a position between two ticks, from the
/// amount of the fixed token: with token A fixed the position must lie at
/// or above the current tick, with token B fixed at or below it.
pub open spec fn liquidity_from_amount(
    lower_index: i32,
    upper_index: i32,
    current_tick_index: i32,
    current_sqrt_price: u128,
    amount: u128,
    is_fixed_a: bool,
) -> Result<(u128, u128, u128), ErrorCode> {
    match sqrt_price_at_tick_result(lower_index as int) {
        Err(e) => Err(e),
        Ok(lower_price) => match sqrt_price_at_tick_result(upper_index as int) {
            Err(e) => Err(e),
            Ok(upper_price) => if is_fixed_a {
                if current_tick_index < lower_index {
                    match liquidity_from_a(lower_price, upper_price, amount, false) {
                        Ok(l) => Ok((l, amount, 0)),
                        Err(e) => Err(e),
                    }
                } else if current_tick_index < upper_index {
                    match liquidity_from_a(current_sqrt_price, upper_price, amount, false) {
                        Ok(l) => match delta_b(current_sqrt_price, lower_price, l, true) {
                            Ok(b) => Ok((l, amount, b)),
                            Err(e) => Err(e),
                        },
                        Err(e) => Err(e),
                    }
                } else {
                    Err(ErrorCode::InvalidFixedTokenType)
                }
            } else {
                if current_tick_index >= upper_index {
                    match liquidity_from_b(lower_price, upper_price, amount, false) {
                        Ok(l) => Ok((l, 0, amount)),
                        Err(e) => Err(e),
                    }
                } else if current_tick_index >= lower_index {
                    match liquidity_from_b(lower_price, current_sqrt_price, amount, false) {
                        Ok(l) => match delta_a(current_sqrt_price, upper_price, l, true) {
                            Ok(a) => Ok((l, a, amount)),
                            Err(e) => Err(e),
                        },
                        Err(e) => Err(e),
                    }
                } else {
                    Err(ErrorCode::InvalidFixedTokenType)
                }
            },
        },
    }
}

pub fn get_liquidity_from_amount(
    lower_index: i32,
    upper_index: i32,
    current_tick_index: i32,
    current_sqrt_price: u128,
    amount: u128,
    is_fixed_a: bool,
) -> (r: Result<(u128, u128, u128), ErrorCode>)
    ensures
        r == liquidity_from_amount(
            lower_index,
            upper_index,
            current_tick_index,
            current_sqrt_price,
            amount,
            is_fixed_a,
        ),
{
    let lower_price = get_sqrt_price_at_tick(lower_index)?;
    let upper_price = get_sqrt_price_at_tick(upper_index)?;
    let mut amount_a: u128 = 0;
    let mut amount_b: u128 = 0;
    let liquidity: u128;
    if is_fixed_a {
        amount_a = amount;
        if current_tick_index < lower_index {
            liquidity = get_liquidity_from_a(lower_price, upper_price, amount, false)?;
        } else if current_tick_index < upper_index {
            liquidity = get_liquidity_from_a(current_sqrt_price, upper_price, amount, false)?;
            amount_b = get_delta_b(current_sqrt_price, lower_price, liquidity, true)?;
        } else {
            return Err(ErrorCode::InvalidFixedTokenType);
        }
    } else {
        amount_b = amount;
        if current_tick_index >= upper_index {
            liquidity = get_liquidity_from_b(lower_price, upper_price, amount, false)?;
        } else if current_tick_index >= lower_index {
            liquidity = get_liquidity_from_b(lower_price, current_sqrt_price, amount, false)?;
            amount_a = get_delta_a(current_sqrt_price, upper_price, liquidity, true)?;
        } else {
            return Err(ErrorCode::InvalidFixedTokenType);
        }
    }
    Ok((liquidity, amount_a, amount_b))
}

} // verus!
