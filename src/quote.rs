//! A quote for an exact-input swap: the simulator's totals as a router
//! reads them.
use crate::error::ErrorCode;
use crate::fetcher::{ticks_down_from, ticks_up_to, PoolInfo, TickInfo};
use crate::simulate_swap::{
    compute_swap, lemma_no_liquidity_adds_nothing, swap_from, swap_ticks, swap_unfilled,
    ComputeSwapResult,
};
use vstd::prelude::*;

verus! {

/// What a swap of a given input would do.
#[derive(Clone, Copy, Debug, PartialEq, Eq, Structural)]
pub struct SwapQuote {
    /// Whether token A goes in.
    pub a_to_b: bool,
    /// Whether the loaded ticks ran out before the whole input was used.
    pub not_enough_liquidity: bool,
    /// Input used, fee included.
    pub in_amount: u64,
    pub out_amount: u64,
    /// The pool's fee rate applied to the requested input.
    pub fee_amount: u64,
    pub sqrt_price_before: u128,
    pub sqrt_price_after: u128,
}

/// Whether two addresses are the same.
pub fn same_address(a: &[u8; 32], b: &[u8; 32]) -> (r: bool)
    ensures
        r == (a@ == b@),
{
    let mut i: usize = 0;
    while i < 32
        invariant
            i <= 32,
            forall|k: int| 0 <= k < i ==> a@[k] == b@[k],
        decreases 32 - i,
    {
        if a[i] != b[i] {
            return false;
        }
        i = i + 1;
    }
    proof {
        assert(a@ =~= b@);
    }
    true
}

/// The quote that totals `s` of a swap of `in_amount` give.
pub open spec fn quote_of(s: ComputeSwapResult, a_to_b: bool, in_amount: u64, fee_rate: u16, before: u128) -> SwapQuote {
    SwapQuote {
        a_to_b,
        not_enough_liquidity: s.amount_in < in_amount,
        in_amount: s.amount_in as u64,
        out_amount: s.amount_out as u64,
        fee_amount: (in_amount * fee_rate / 1_000_000int) as u64,
        sqrt_price_before: before,
        sqrt_price_after: s.next_sqrt_price,
    }
}

/// Quotes a swap of `in_amount` of the token `input_mint`: token A in where
/// it is the pool's token A, token B in otherwise.
pub fn quote_exact_in(pool_info: PoolInfo, input_mint: &[u8; 32], in_amount: u64) -> (r: Result<
    SwapQuote,
    ErrorCode,
>)
    requires
        pool_info.wf(),
    ensures
        ({
            let a_to_b = pool_info.pool.token_a@ == input_mint@;
            let sim = swap_from(
                pool_info.pool,
                swap_ticks(pool_info, a_to_b),
                0,
                in_amount as u128,
                ComputeSwapResult { amount_in: 0, amount_out: 0, fee_amount: 0, next_sqrt_price: 0 },
                a_to_b,
                true,
            );
            match sim {
                Err(e) => r == Err::<SwapQuote, ErrorCode>(e),
                Ok(s) => if s.amount_out > u64::MAX {
                    r == Err::<SwapQuote, ErrorCode>(ErrorCode::SwapAmountOutOverflow)
                } else {
                    r == Ok::<SwapQuote, ErrorCode>(
                        quote_of(s, a_to_b, in_amount, pool_info.pool.fee_rate, pool_info.pool.current_sqrt_price),
                    )
                },
            }
        }),
        ({
            let a_to_b = pool_info.pool.token_a@ == input_mint@;
            let unfilled = swap_unfilled(
                pool_info.pool,
                swap_ticks(pool_info, a_to_b),
                0,
                in_amount as u128,
                ComputeSwapResult { amount_in: 0, amount_out: 0, fee_amount: 0, next_sqrt_price: 0 },
                a_to_b,
                true,
            );
            r matches Ok(q) ==> q.in_amount + unfilled == in_amount && (q.not_enough_liquidity
                <==> unfilled > 0)
        }),
{
    let a_to_b = same_address(&pool_info.pool.token_a, input_mint);
    let fee_rate = pool_info.pool.fee_rate;
    let before = pool_info.pool.current_sqrt_price;
    let swap_result = match compute_swap(pool_info, a_to_b, true, in_amount) {
        Ok(s) => s,
        Err(e) => return Err(e),
    };
    if swap_result.amount_out > 0xffff_ffff_ffff_ffff {
        return Err(ErrorCode::SwapAmountOutOverflow);
    }
    proof {
        assert(in_amount * fee_rate / 1_000_000int <= in_amount) by (nonlinear_arith)
            requires
                fee_rate <= 0xffff,
        ;
    }
    let fee_amount = (in_amount as u128 * fee_rate as u128 / 1_000_000) as u64;
    Ok(
        SwapQuote {
            a_to_b,
            not_enough_liquidity: swap_result.amount_in < in_amount as u128,
            in_amount: swap_result.amount_in as u64,
            out_amount: swap_result.amount_out as u64,
            fee_amount,
            sqrt_price_before: before,
            sqrt_price_after: swap_result.next_sqrt_price,
        },
    )
}

proof fn lemma_ticks_below_keep_net(records: Seq<TickInfo>, bound: i32, i: int)
    requires
        forall|k: int| 0 <= k < records.len() ==> (#[trigger] records[k]).liquidity_net == 0,
    ensures
        forall|k: int|
            0 <= k < ticks_down_from(records, bound, i).len() ==> (#[trigger] ticks_down_from(
                records,
                bound,
                i,
            )[k]).liquidity_net == 0,
    decreases records.len() - i,
{
    if 0 <= i < records.len() {
        lemma_ticks_below_keep_net(records, bound, i + 1);
        let rest = ticks_down_from(records, bound, i + 1);
        let all = ticks_down_from(records, bound, i);
        assert(records[i].liquidity_net == 0);
        assert forall|k: int| 0 <= k < all.len() implies (#[trigger] all[k]).liquidity_net == 0 by {
            if k < rest.len() {
                assert(all[k] == rest[k]);
            }
        }
    }
}

proof fn lemma_ticks_above_keep_net(records: Seq<TickInfo>, bound: i32, n: int)
    requires
        forall|k: int| 0 <= k < records.len() ==> (#[trigger] records[k]).liquidity_net == 0,
        n <= records.len(),
    ensures
        forall|k: int|
            0 <= k < ticks_up_to(records, bound, n).len() ==> (#[trigger] ticks_up_to(
                records,
                bound,
                n,
            )[k]).liquidity_net == 0,
    decreases n,
{
    if n > 0 {
        lemma_ticks_above_keep_net(records, bound, n - 1);
        let rest = ticks_up_to(records, bound, n - 1);
        let all = ticks_up_to(records, bound, n);
        assert(records[n - 1].liquidity_net == 0);
        assert forall|k: int| 0 <= k < all.len() implies (#[trigger] all[k]).liquidity_net == 0 by {
            if k < rest.len() {
                assert(all[k] == rest[k]);
            }
        }
    }
}

/// A pool with no liquidity, neither in its state nor on any loaded tick,
/// fills nothing: a simulated exact-input swap that succeeds gives no output
/// and uses no input, so its quote reports too little liquidity for any
/// positive input.
pub proof fn lemma_no_liquidity_fills_nothing(pool_info: PoolInfo, a_to_b: bool, in_amount: u64)
    requires
        pool_info.pool.liquidity == 0,
        forall|k: int|
            0 <= k < pool_info.ticks@.len() ==> (#[trigger] pool_info.ticks@[k]).liquidity_net == 0,
    ensures
        swap_from(
            pool_info.pool,
            swap_ticks(pool_info, a_to_b),
            0,
            in_amount as u128,
            ComputeSwapResult { amount_in: 0, amount_out: 0, fee_amount: 0, next_sqrt_price: 0 },
            a_to_b,
            true,
        ) matches Ok(s) ==> s.amount_in == 0 && s.amount_out == 0 && ({
            let q = quote_of(
                s,
                a_to_b,
                in_amount,
                pool_info.pool.fee_rate,
                pool_info.pool.current_sqrt_price,
            );
            q.out_amount == 0 && q.in_amount == 0 && q.not_enough_liquidity == (in_amount > 0)
        }),
{
    lemma_ticks_below_keep_net(pool_info.ticks@, pool_info.pool.current_tick_index, 0);
    lemma_ticks_above_keep_net(
        pool_info.ticks@,
        pool_info.pool.current_tick_index,
        pool_info.ticks@.len() as int,
    );
    lemma_no_liquidity_adds_nothing(
        pool_info.pool,
        swap_ticks(pool_info, a_to_b),
        0,
        in_amount as u128,
        ComputeSwapResult { amount_in: 0, amount_out: 0, fee_amount: 0, next_sqrt_price: 0 },
        a_to_b,
        true,
    );
}

} // verus!
