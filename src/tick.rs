//! One initialized price boundary and its liquidity and fee bookkeeping.
use crate::clmmpool::{rewarder_initialized, Clmmpool, Rewarder};
use crate::error::ErrorCode;
use crate::tick_math::{MAX_TICK, MIN_TICK};
use vstd::prelude::*;
use vstd::wrapping::u128_specs;

verus! {

/// A tick: a price boundary where liquidity starts or stops.
#[derive(Clone, Copy, Debug, Default, PartialEq, Eq)]
pub struct Tick {
    pub is_initialized: bool,
    pub index: i32,
    pub sqrt_price: u128,
    /// Liquidity added when the price crosses this tick upward.
    pub liquidity_net: i128,
    pub liquidity_gross: u128,
    /// Q64.64 fee growth on the side of this tick away from the current price.
    pub fee_growth_outside_a: u128,
    pub fee_growth_outside_b: u128,
    pub reward_growth_outside: [u128; 3],
}

/// The liquidity after crossing a tick with net liquidity `liquidity_net`:
/// added when the price moves up, taken away when it moves down (`a_to_b`).
pub open spec fn crossed_liquidity(liquidity: u128, liquidity_net: i128, a_to_b: bool) -> Result<
    u128,
    ErrorCode,
> {
    let change = if a_to_b {
        -liquidity_net
    } else {
        liquidity_net as int
    };
    let n = liquidity + change;
    if n < 0 {
        Err(ErrorCode::LiquidityUnderflow)
    } else if n > u128::MAX {
        Err(ErrorCode::LiquidityOverflow)
    } else {
        Ok(n as u128)
    }
}

/// A reward accumulator of a tick after a crossing.
pub open spec fn crossed_reward(r: Rewarder, outside: u128) -> u128 {
    if rewarder_initialized(r) {
        u128_specs::wrapping_sub(r.growth_global, outside)
    } else {
        outside
    }
}

/// A tick after the price crossed it: every "outside" accumulator now
/// measures the other side, `global - outside`.
pub open spec fn crossed_tick(t: Tick, pool: Clmmpool) -> Tick {
    Tick {
        fee_growth_outside_a: u128_specs::wrapping_sub(pool.fee_growth_global_a, t.fee_growth_outside_a),
        fee_growth_outside_b: u128_specs::wrapping_sub(pool.fee_growth_global_b, t.fee_growth_outside_b),
        reward_growth_outside: [
            crossed_reward(pool.rewarder_infos.0[0], t.reward_growth_outside[0]),
            crossed_reward(pool.rewarder_infos.0[1], t.reward_growth_outside[1]),
            crossed_reward(pool.rewarder_infos.0[2], t.reward_growth_outside[2]),
        ],
        ..t
    }
}

/// Fee growth below a lower tick, for token A and token B.
pub open spec fn fee_growth_below(pool: Clmmpool, tick_lower: Option<Tick>, tick_lower_index: i32) -> (u128, u128) {
    match tick_lower {
        None => (pool.fee_growth_global_a, pool.fee_growth_global_b),
        Some(t) => if pool.current_tick_index < tick_lower_index {
            (
                u128_specs::wrapping_sub(pool.fee_growth_global_a, t.fee_growth_outside_a),
                u128_specs::wrapping_sub(pool.fee_growth_global_b, t.fee_growth_outside_b),
            )
        } else {
            (t.fee_growth_outside_a, t.fee_growth_outside_b)
        },
    }
}

/// Fee growth above an upper tick, for token A and token B.
pub open spec fn fee_growth_above(pool: Clmmpool, tick_upper: Option<Tick>, tick_upper_index: i32) -> (u128, u128) {
    match tick_upper {
        None => (0, 0),
        Some(t) => if pool.current_tick_index < tick_upper_index {
            (t.fee_growth_outside_a, t.fee_growth_outside_b)
        } else {
            (
                u128_specs::wrapping_sub(pool.fee_growth_global_a, t.fee_growth_outside_a),
                u128_specs::wrapping_sub(pool.fee_growth_global_b, t.fee_growth_outside_b),
            )
        },
    }
}

impl Tick {
    pub const LEN: usize = 1 + 4 + 16 + 16 + 16 + 16 + 16 + 3 * 16;

    /// The lowest tick usable at a spacing.
    pub fn min(tick_spacing: u16) -> (r: i32)
        requires
            tick_spacing > 0,
        ensures
            r == MIN_TICK + 443636int % (tick_spacing as int),
    {
        MIN_TICK + (443636u32 % tick_spacing as u32) as i32
    }

    /// The highest tick usable at a spacing.
    pub fn max(tick_spacing: u16) -> (r: i32)
        requires
            tick_spacing > 0,
        ensures
            r == MAX_TICK - 443636int % (tick_spacing as int),
    {
        MAX_TICK - (443636u32 % tick_spacing as u32) as i32
    }

    /// Fee growth between two ticks, for token A and token B, from the
    /// pool's global growth and the ticks' outside growth.
    pub fn get_fee_in_tick_range(
        clmmpool: &Clmmpool,
        tick_lower: Option<&Tick>,
        tick_upper: Option<&Tick>,
        tick_lower_index: i32,
        tick_upper_index: i32,
    ) -> (r: (u128, u128))
        ensures
            ({
                let below = fee_growth_below(
                    *clmmpool,
                    match tick_lower {
                        Some(t) => Some(*t),
                        None => None,
                    },
                    tick_lower_index,
                );
                let above = fee_growth_above(
                    *clmmpool,
                    match tick_upper {
                        Some(t) => Some(*t),
                        None => None,
                    },
                    tick_upper_index,
                );
                r == (
                    u128_specs::wrapping_sub(
                        u128_specs::wrapping_sub(clmmpool.fee_growth_global_a, below.0),
                        above.0,
                    ),
                    u128_specs::wrapping_sub(
                        u128_specs::wrapping_sub(clmmpool.fee_growth_global_b, below.1),
                        above.1,
                    ),
                )
            }),
    {
        let (fee_growth_below_a, fee_growth_below_b) = match tick_lower {
            None => (clmmpool.fee_growth_global_a, clmmpool.fee_growth_global_b),
            Some(tick_lower) => if clmmpool.current_tick_index < tick_lower_index {
                (
                    clmmpool.fee_growth_global_a.wrapping_sub(tick_lower.fee_growth_outside_a),
                    clmmpool.fee_growth_global_b.wrapping_sub(tick_lower.fee_growth_outside_b),
                )
            } else {
                (tick_lower.fee_growth_outside_a, tick_lower.fee_growth_outside_b)
            },
        };
        // By convention, when initializing a tick, no fees have been earned above the tick.
        let (fee_growth_above_a, fee_growth_above_b) = match tick_upper {
            None => (0, 0),
            Some(tick_upper) => if clmmpool.current_tick_index < tick_upper_index {
                (tick_upper.fee_growth_outside_a, tick_upper.fee_growth_outside_b)
            } else {
                (
                    clmmpool.fee_growth_global_a.wrapping_sub(tick_upper.fee_growth_outside_a),
                    clmmpool.fee_growth_global_b.wrapping_sub(tick_upper.fee_growth_outside_b),
                )
            },
        };
        (
            clmmpool.fee_growth_global_a.wrapping_sub(fee_growth_below_a).wrapping_sub(
                fee_growth_above_a,
            ),
            clmmpool.fee_growth_global_b.wrapping_sub(fee_growth_below_b).wrapping_sub(
                fee_growth_above_b,
            ),
        )
    }

    /// Crosses this tick: returns the pool's new liquidity and flips the
    /// tick's outside accumulators. On failure the tick is left as it was.
    pub fn cross_update(&mut self, pool: &Clmmpool, a_to_b: bool) -> (r: Result<u128, ErrorCode>)
        ensures
            r == crossed_liquidity(pool.liquidity, old(self).liquidity_net, a_to_b),
            r is Ok ==> *final(self) == crossed_tick(*old(self), *pool),
            r is Err ==> *final(self) == *old(self),
    {
        let liquidity = pool.liquidity;
        let net = self.liquidity_net;
        let add = (net > 0 && !a_to_b) || (net < 0 && a_to_b);
        let magnitude: u128 = if net >= 0 {
            net as u128
        } else {
            (-(net + 1)) as u128 + 1
        };
        let current_liquidity = if add {
            match liquidity.checked_add(magnitude) {
                Some(l) => l,
                None => return Err(ErrorCode::LiquidityOverflow),
            }
        } else {
            match liquidity.checked_sub(magnitude) {
                Some(l) => l,
                None => return Err(ErrorCode::LiquidityUnderflow),
            }
        };
        self.fee_growth_outside_a = pool.fee_growth_global_a.wrapping_sub(self.fee_growth_outside_a);
        self.fee_growth_outside_b = pool.fee_growth_global_b.wrapping_sub(self.fee_growth_outside_b);
        let r0 = cross_reward(&pool.rewarder_infos.0[0], self.reward_growth_outside[0]);
        let r1 = cross_reward(&pool.rewarder_infos.0[1], self.reward_growth_outside[1]);
        let r2 = cross_reward(&pool.rewarder_infos.0[2], self.reward_growth_outside[2]);
        self.reward_growth_outside = [r0, r1, r2];
        proof {
            assert(self.reward_growth_outside =~= crossed_tick(*old(self), *pool).reward_growth_outside);
        }
        Ok(current_liquidity)
    }
}

fn cross_reward(rewarder: &Rewarder, outside: u128) -> (r: u128)
    ensures
        r == crossed_reward(*rewarder, outside),
{
    if rewarder.is_initialized() {
        rewarder.growth_global.wrapping_sub(outside)
    } else {
        outside
    }
}

/// Crossing a tick upward and then straight back downward, against the same
/// pool accumulators, gives back the liquidity and the tick it started from.
pub proof fn lemma_cross_up_then_down(tick: Tick, pool: Clmmpool)
    requires
        crossed_liquidity(pool.liquidity, tick.liquidity_net, false) is Ok,
    ensures
        ({
            let up = crossed_liquidity(pool.liquidity, tick.liquidity_net, false)->Ok_0;
            let after_up = crossed_tick(tick, pool);
            crossed_liquidity(up, after_up.liquidity_net, true) == Ok::<u128, ErrorCode>(pool.liquidity)
                && crossed_tick(after_up, Clmmpool { liquidity: up, ..pool }) == tick
        }),
{
    let after_up = crossed_tick(tick, pool);
    let back = crossed_tick(after_up, Clmmpool { liquidity: crossed_liquidity(pool.liquidity, tick.liquidity_net, false)->Ok_0, ..pool });
    assert(back.reward_growth_outside =~= tick.reward_growth_outside);
    assert(back.fee_growth_outside_a == tick.fee_growth_outside_a);
    assert(back.fee_growth_outside_b == tick.fee_growth_outside_b);
    assert(back == tick);
}

} // verus!
