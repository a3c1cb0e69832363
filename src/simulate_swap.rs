//! The swap simulator: steps through the ticks in the swap's direction,
//! crossing each one the price reaches, until the amount is used up or the
//! loaded ticks run out.
use crate::clmm_math::{compute_swap_step, swap_step, SwapStepResult};
use crate::clmmpool::Clmmpool;
use crate::error::ErrorCode;
use crate::fetcher::{ticks_down_from, ticks_up_to, PoolInfo};
use crate::tick::{crossed_liquidity, Tick};
use crate::tick_math::{get_tick_at_sqrt_price, tick_at_sqrt_price, MAX_SQRT_PRICE_X64, MIN_SQRT_PRICE_X64};
use vstd::prelude::*;

verus! {

/// A record of one step of a simulated swap.
#[derive(Debug, Clone, Copy, Default)]
pub struct StepInfo {
    pub current_tick_index: i32,
    pub current_sqrt_price: u128,
    pub target_sqrt_price: u128,
    pub after_sqrt_price: u128,
    pub start_remainer: u128,
    pub after_remainer: u128,
    pub after_tick_index: i32,
    pub amount_in: u128,
    pub amount_out: u128,
    pub fee_amount: u128,
    pub amount_used: u128,
}

impl StepInfo {
    /// The record of a step, before what follows it is known.
    pub fn from(
        remainer: u128,
        step_result: &SwapStepResult,
        current_tick_index: i32,
        current_sqrt_price: u128,
        target_sqrt_price: u128,
    ) -> (r: Self)
        ensures
            r == (StepInfo {
                current_tick_index,
                current_sqrt_price,
                target_sqrt_price,
                after_sqrt_price: step_result.next_sqrt_price,
                start_remainer: remainer,
                after_remainer: 0,
                after_tick_index: 0,
                amount_in: step_result.amount_in,
                amount_out: step_result.amount_out,
                fee_amount: step_result.fee_amount,
                amount_used: 0,
            }),
    {
        StepInfo {
            current_tick_index,
            current_sqrt_price,
            target_sqrt_price,
            after_sqrt_price: step_result.next_sqrt_price,
            start_remainer: remainer,
            after_remainer: 0,
            after_tick_index: 0i32,
            amount_in: step_result.amount_in,
            amount_out: step_result.amount_out,
            fee_amount: step_result.fee_amount,
            amount_used: 0,
        }
    }
}

/// The totals of a simulated swap.
#[derive(Debug, Clone, Copy, PartialEq, Eq, Structural)]
pub struct ComputeSwapResult {
    pub amount_in: u128,
    pub amount_out: u128,
    pub fee_amount: u128,
    pub next_sqrt_price: u128,
}

impl Default for ComputeSwapResult {
    fn default() -> (r: ComputeSwapResult)
        ensures
            r == (ComputeSwapResult { amount_in: 0, amount_out: 0, fee_amount: 0, next_sqrt_price: 0 }),
    {
        ComputeSwapResult { amount_in: 0, amount_out: 0, fee_amount: 0, next_sqrt_price: 0 }
    }
}

/// Totals with one more step added in.
pub open spec fn accumulated(acc: ComputeSwapResult, step: SwapStepResult) -> Result<ComputeSwapResult, ErrorCode> {
    if acc.amount_in + step.amount_in > u128::MAX {
        Err(ErrorCode::SwapAmountInOverflow)
    } else if acc.amount_out + step.amount_out > u128::MAX {
        Err(ErrorCode::SwapAmountOutOverflow)
    } else if acc.fee_amount + step.fee_amount > u128::MAX {
        Err(ErrorCode::SwapFeeAmountOverflow)
    } else {
        Ok(
            ComputeSwapResult {
                amount_in: (acc.amount_in + step.amount_in) as u128,
                amount_out: (acc.amount_out + step.amount_out) as u128,
                fee_amount: (acc.fee_amount + step.fee_amount) as u128,
                ..acc
            },
        )
    }
}

impl ComputeSwapResult {
    /// Adds a step's amounts to the totals; on overflow the totals stay as they were.
    pub fn update(&mut self, step_result: &SwapStepResult) -> (r: Result<(), ErrorCode>)
        ensures
            match accumulated(*old(self), *step_result) {
                Ok(acc) => r is Ok && *final(self) == acc,
                Err(e) => r == Err::<(), ErrorCode>(e) && *final(self) == *old(self),
            },
    {
        let amount_in = match self.amount_in.checked_add(step_result.amount_in) {
            Some(v) => v,
            None => return Err(ErrorCode::SwapAmountInOverflow),
        };
        let amount_out = match self.amount_out.checked_add(step_result.amount_out) {
            Some(v) => v,
            None => return Err(ErrorCode::SwapAmountOutOverflow),
        };
        let fee_amount = match self.fee_amount.checked_add(step_result.fee_amount) {
            Some(v) => v,
            None => return Err(ErrorCode::SwapFeeAmountOverflow),
        };
        self.amount_in = amount_in;
        self.amount_out = amount_out;
        self.fee_amount = fee_amount;
        Ok(())
    }
}

/// The pool after a step towards tick `t` ended at `next_sqrt_price`: where
/// it reached an initialized tick, the tick is crossed (the current tick
/// becomes the one below it when moving down, the tick itself when moving
/// up); otherwise the current tick is recomputed from the price.
pub open spec fn advanced(pool: Clmmpool, t: Tick, next_sqrt_price: u128, a2b: bool) -> Result<Clmmpool, ErrorCode> {
    if t.is_initialized && next_sqrt_price == t.sqrt_price {
        let index = if a2b {
            t.index - 1
        } else {
            t.index as int
        };
        if index < i32::MIN {
            Err(ErrorCode::InvalidTickIndex)
        } else {
            match crossed_liquidity(pool.liquidity, t.liquidity_net, a2b) {
                Ok(liquidity) => Ok(
                    Clmmpool {
                        current_sqrt_price: t.sqrt_price,
                        current_tick_index: index as i32,
                        liquidity,
                        ..pool
                    },
                ),
                Err(e) => Err(e),
            }
        }
    } else if next_sqrt_price < MIN_SQRT_PRICE_X64 || next_sqrt_price > MAX_SQRT_PRICE_X64 {
        Err(ErrorCode::SqrtPriceOutOfBounds)
    } else {
        Ok(
            Clmmpool {
                current_sqrt_price: next_sqrt_price,
                current_tick_index: tick_at_sqrt_price(next_sqrt_price as nat) as i32,
                ..pool
            },
        )
    }
}

/// The rest of a simulation from tick `i` on, with `remaining` still to
/// fill and `acc` the totals so far.
pub open spec fn swap_from(
    pool: Clmmpool,
    ticks: Seq<Tick>,
    i: int,
    remaining: u128,
    acc: ComputeSwapResult,
    a2b: bool,
    by_amount_in: bool,
) -> Result<ComputeSwapResult, ErrorCode>
    decreases ticks.len() - i,
{
    if remaining == 0 || i >= ticks.len() || i < 0 {
        if acc.amount_in + acc.fee_amount > u128::MAX {
            Err(ErrorCode::SwapAmountInOverflow)
        } else {
            Ok(
                ComputeSwapResult {
                    amount_in: (acc.amount_in + acc.fee_amount) as u128,
                    next_sqrt_price: pool.current_sqrt_price,
                    ..acc
                },
            )
        }
    } else {
        let t = ticks[i];
        match swap_step(pool.current_sqrt_price, t.sqrt_price, pool.liquidity, remaining, pool.fee_rate, by_amount_in) {
            Err(e) => Err(e),
            Ok(step) => {
                let rest = if step.amount_in == 0 {
                    remaining
                } else if by_amount_in {
                    (remaining - step.amount_in - step.fee_amount) as u128
                } else {
                    (remaining - step.amount_out) as u128
                };
                let totals = if step.amount_in == 0 {
                    Ok(acc)
                } else {
                    accumulated(acc, step)
                };
                match totals {
                    Err(e) => Err(e),
                    Ok(totals) => match advanced(pool, t, step.next_sqrt_price, a2b) {
                        Err(e) => Err(e),
                        Ok(next_pool) => swap_from(next_pool, ticks, i + 1, rest, totals, a2b, by_amount_in),
                    },
                }
            },
        }
    }
}

/// What is left unfilled where a simulation from tick `i` on stops: zero
/// where the amount was filled, the remainder where the ticks ran out.
pub open spec fn swap_unfilled(
    pool: Clmmpool,
    ticks: Seq<Tick>,
    i: int,
    remaining: u128,
    acc: ComputeSwapResult,
    a2b: bool,
    by_amount_in: bool,
) -> u128
    decreases ticks.len() - i,
{
    if remaining == 0 || i >= ticks.len() || i < 0 {
        remaining
    } else {
        let t = ticks[i];
        match swap_step(pool.current_sqrt_price, t.sqrt_price, pool.liquidity, remaining, pool.fee_rate, by_amount_in) {
            Err(_) => remaining,
            Ok(step) => {
                let rest = if step.amount_in == 0 {
                    remaining
                } else if by_amount_in {
                    (remaining - step.amount_in - step.fee_amount) as u128
                } else {
                    (remaining - step.amount_out) as u128
                };
                let totals = if step.amount_in == 0 {
                    Ok(acc)
                } else {
                    accumulated(acc, step)
                };
                match totals {
                    Err(_) => remaining,
                    Ok(totals) => match advanced(pool, t, step.next_sqrt_price, a2b) {
                        Err(_) => remaining,
                        Ok(next_pool) => swap_unfilled(next_pool, ticks, i + 1, rest, totals, a2b, by_amount_in),
                    },
                }
            },
        }
    }
}

/// The ticks a simulation walks through.
pub open spec fn swap_ticks(pool_info: PoolInfo, a2b: bool) -> Seq<Tick> {
    if a2b {
        ticks_down_from(pool_info.ticks@, pool_info.pool.current_tick_index, 0)
    } else {
        ticks_up_to(pool_info.ticks@, pool_info.pool.current_tick_index, pool_info.ticks@.len() as int)
    }
}

/// Simulates a swap of `amount` (the input where `by_amount_in`, else the
/// output) in the direction `a2b` against a snapshot. The reported input
/// includes the fee. Running out of ticks before the amount is filled is not
/// an error: the totals then fall short of `amount`.
pub fn compute_swap(pool_info: PoolInfo, a2b: bool, by_amount_in: bool, amount: u64) -> (r: Result<
    ComputeSwapResult,
    ErrorCode,
>)
    requires
        pool_info.wf(),
    ensures
        r == swap_from(
            pool_info.pool,
            swap_ticks(pool_info, a2b),
            0,
            amount as u128,
            ComputeSwapResult { amount_in: 0, amount_out: 0, fee_amount: 0, next_sqrt_price: 0 },
            a2b,
            by_amount_in,
        ),
        ({
            let unfilled = swap_unfilled(
                pool_info.pool,
                swap_ticks(pool_info, a2b),
                0,
                amount as u128,
                ComputeSwapResult { amount_in: 0, amount_out: 0, fee_amount: 0, next_sqrt_price: 0 },
                a2b,
                by_amount_in,
            );
            r matches Ok(s) ==> (by_amount_in ==> s.amount_in + unfilled == amount) && (
            !by_amount_in ==> s.amount_out + unfilled == amount)
        }),
        by_amount_in && r is Ok ==> r->Ok_0.amount_in <= amount,
        !by_amount_in && r is Ok ==> r->Ok_0.amount_out <= amount,
{
    let (_, ticks) = pool_info.ticks_for_swap(a2b, 100);
    let mut pool = pool_info.pool;
    let mut remainer_amount = amount as u128;
    let mut swap_result = ComputeSwapResult::default();
    let mut next_idx: usize = 0;
    proof {
        assert(ticks@ == swap_ticks(pool_info, a2b));
    }
    while remainer_amount > 0 && next_idx < ticks.len()
        invariant
            next_idx <= ticks@.len(),
            ticks@ == swap_ticks(pool_info, a2b),
            swap_from(pool, ticks@, next_idx as int, remainer_amount, swap_result, a2b, by_amount_in)
                == swap_from(
                pool_info.pool,
                ticks@,
                0,
                amount as u128,
                ComputeSwapResult { amount_in: 0, amount_out: 0, fee_amount: 0, next_sqrt_price: 0 },
                a2b,
                by_amount_in,
            ),
            swap_unfilled(pool, ticks@, next_idx as int, remainer_amount, swap_result, a2b, by_amount_in)
                == swap_unfilled(
                pool_info.pool,
                ticks@,
                0,
                amount as u128,
                ComputeSwapResult { amount_in: 0, amount_out: 0, fee_amount: 0, next_sqrt_price: 0 },
                a2b,
                by_amount_in,
            ),
            by_amount_in ==> remainer_amount + swap_result.amount_in + swap_result.fee_amount == amount,
            !by_amount_in ==> remainer_amount + swap_result.amount_out == amount,
        decreases ticks@.len() - next_idx,
    {
        let mut next_tick = ticks[next_idx];
        let target_sqrt_price = next_tick.sqrt_price;
        let step_result = match compute_swap_step(
            pool.current_sqrt_price,
            target_sqrt_price,
            pool.liquidity,
            remainer_amount,
            pool.fee_rate,
            by_amount_in,
        ) {
            Ok(s) => s,
            Err(e) => return Err(e),
        };
        if step_result.amount_in != 0 {
            if by_amount_in {
                remainer_amount = remainer_amount - step_result.amount_in;
                remainer_amount = remainer_amount - step_result.fee_amount;
            } else {
                remainer_amount = remainer_amount - step_result.amount_out;
            }
            swap_result.update(&step_result)?;
        }
        if next_tick.is_initialized && step_result.next_sqrt_price == next_tick.sqrt_price {
            pool.current_sqrt_price = next_tick.sqrt_price;
            pool.current_tick_index = if a2b {
                match next_tick.index.checked_sub(1) {
                    Some(i) => i,
                    None => return Err(ErrorCode::InvalidTickIndex),
                }
            } else {
                next_tick.index
            };
            pool.liquidity = next_tick.cross_update(&pool, a2b)?;
        } else {
            let price = step_result.next_sqrt_price;
            if price < MIN_SQRT_PRICE_X64 || price > MAX_SQRT_PRICE_X64 {
                return Err(ErrorCode::SqrtPriceOutOfBounds);
            }
            pool.current_sqrt_price = price;
            pool.current_tick_index = match get_tick_at_sqrt_price(price) {
                Ok(t) => t,
                Err(e) => return Err(e),
            };
        }
        next_idx = next_idx + 1;
    }
    let amount_in = match swap_result.amount_in.checked_add(swap_result.fee_amount) {
        Some(v) => v,
        None => return Err(ErrorCode::SwapAmountInOverflow),
    };
    swap_result.amount_in = amount_in;
    swap_result.next_sqrt_price = pool.current_sqrt_price;
    Ok(swap_result)
}

/// With no liquidity in the pool and none on any tick ahead, the rest of a
/// simulation adds nothing to the totals where it succeeds: each step moves
/// the price only, and each crossing keeps the liquidity at zero.
pub proof fn lemma_no_liquidity_adds_nothing(
    pool: Clmmpool,
    ticks: Seq<Tick>,
    i: int,
    remaining: u128,
    acc: ComputeSwapResult,
    a2b: bool,
    by_amount_in: bool,
)
    requires
        pool.liquidity == 0,
        forall|k: int| 0 <= k < ticks.len() ==> (#[trigger] ticks[k]).liquidity_net == 0,
    ensures
        swap_from(pool, ticks, i, remaining, acc, a2b, by_amount_in) matches Ok(r) ==> r.amount_in
            == acc.amount_in + acc.fee_amount && r.amount_out == acc.amount_out && r.fee_amount
            == acc.fee_amount,
    decreases ticks.len() - i,
{
    if !(remaining == 0 || i >= ticks.len() || i < 0) {
        let t = ticks[i];
        match advanced(pool, t, t.sqrt_price, a2b) {
            Ok(next_pool) => {
                lemma_no_liquidity_adds_nothing(next_pool, ticks, i + 1, remaining, acc, a2b, by_amount_in);
            },
            Err(_) => {},
        }
    }
}

} // verus!
