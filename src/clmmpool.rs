//! The per-pool ledger: price, liquidity and the fee and reward accumulators.
use crate::bn::pow64;
use crate::full_math::{div_rounded, FullMath, Rounding};
use vstd::prelude::*;
use vstd::wrapping::{u128_specs, u64_specs};

verus! {

pub const PROTOCOL_FEE_DENOMNINATOR: u64 = 10_000;

pub const REWARDER_NUM: usize = 3;

/// A reward stream of a pool.
#[derive(Clone, Copy, Debug, Default, PartialEq, Eq)]
pub struct Rewarder {
    pub mint_wrapper: [u8; 32],
    pub minter: [u8; 32],
    /// Reward token mint.
    pub mint: [u8; 32],
    /// Authority account that has permission to initialize the reward and set emissions.
    pub authority: [u8; 32],
    /// Q64.64 number that indicates how many tokens per second are earned per unit of liquidity.
    pub emissions_per_second: u128,
    /// Q64.64 number that tracks the total tokens earned per unit of liquidity since the reward
    /// emissions were turned on.
    pub growth_global: u128,
}

/// Whether a rewarder has a mint: one of its mint bytes is not zero.
pub open spec fn rewarder_initialized(r: Rewarder) -> bool {
    exists|i: int| 0 <= i < 32 && r.mint@[i] != 0
}

impl Rewarder {
    pub const LEN: usize = 32 + 32 + 32 + 32 + 16 + 16;

    pub fn is_initialized(&self) -> (r: bool)
        ensures
            r == rewarder_initialized(*self),
    {
        let mut i: usize = 0;
        while i < 32
            invariant
                i <= 32,
                forall|j: int| 0 <= j < i ==> self.mint@[j] == 0,
            decreases 32 - i,
        {
            if self.mint[i] != 0 {
                return true;
            }
            i = i + 1;
        }
        false
    }
}

/// The pool's reward streams.
#[derive(Clone, Copy, Debug, Default, PartialEq)]
pub struct Rewarders(pub [Rewarder; 3]);

/// The state of one pool.
#[derive(Clone, Copy, Debug, Default)]
pub struct Clmmpool {
    /// clmm_config
    pub clmm_config: [u8; 32],
    /// The pool token a mint address.
    pub token_a: [u8; 32],
    /// The pool token b mint address.
    pub token_b: [u8; 32],
    /// The vault for hold clmmpool's token a.
    pub token_a_vault: [u8; 32],
    /// The vault for hold clmmpool's token b.
    pub token_b_vault: [u8; 32],
    /// The tick spacing.
    pub tick_spacing: u16,
    pub tick_spacing_seed: u16,
    /// The numerator of fee rate, the denominator is 1_000_000.
    pub fee_rate: u16,
    /// The liquidity of current tick index.
    pub liquidity: u128,
    /// The current sqrt price, Q64.64 and MAX/MIN is Q32.64.
    pub current_sqrt_price: u128,
    /// The current tick index.
    pub current_tick_index: i32,
    /// The fee growth a as Q64.64.
    pub fee_growth_global_a: u128,
    /// The fee growth b as Q64.64.
    pub fee_growth_global_b: u128,
    /// The amounts of token a owed to protocol.
    pub fee_protocol_token_a: u64,
    /// The amounts of token b owed to protocol.
    pub fee_protocol_token_b: u64,
    /// The bump
    pub bump: u8,
    pub rewarder_infos: Rewarders,
    pub rewarder_last_updated_time: u64,
    pub is_pause: bool,
}

/// The protocol's share of a fee, rounded up.
pub open spec fn protocol_fee_of(fee_amount: u64, protocol_fee_rate: u16) -> nat {
    div_rounded((fee_amount * protocol_fee_rate) as nat, 10_000, Rounding::Up)
}

/// The referrer's share of the protocol fee, rounded down.
pub open spec fn ref_fee_of(protocol_fee: nat, ref_rate: u16) -> nat {
    protocol_fee * ref_rate as nat / 10_000
}

/// The pool after a fee of `fee_amount` on one token was split between the
/// protocol, the referrer and the liquidity providers.
pub open spec fn fee_updated(
    pool: Clmmpool,
    fee_amount: u64,
    protocol_fee_rate: u16,
    is_token_a: bool,
) -> Clmmpool {
    let protocol_fee = protocol_fee_of(fee_amount, protocol_fee_rate);
    let pool_fee = (fee_amount - protocol_fee) as nat;
    let growth = if pool_fee == 0 || pool.liquidity == 0 {
        0
    } else {
        (pool_fee * pow64() / pool.liquidity as nat) as u128
    };
    if is_token_a {
        Clmmpool {
            fee_protocol_token_a: u64_specs::wrapping_add(pool.fee_protocol_token_a, protocol_fee as u64),
            fee_growth_global_a: u128_specs::wrapping_add(pool.fee_growth_global_a, growth),
            ..pool
        }
    } else {
        Clmmpool {
            fee_protocol_token_b: u64_specs::wrapping_add(pool.fee_protocol_token_b, protocol_fee as u64),
            fee_growth_global_b: u128_specs::wrapping_add(pool.fee_growth_global_b, growth),
            ..pool
        }
    }
}

impl Clmmpool {
    pub const REWARD_NUM: usize = 3;

    pub const LEN: usize = 5 * 32 + 3 * 2 + 2 * 16 + 4 + 2 * 16 + 2 * 8 + 1 + 3 * Rewarder::LEN + 8 + 1;

    /// Splits a fee between the protocol, the referrer and the liquidity
    /// providers; returns the referrer's and the protocol's shares.
    pub fn update_fee(
        &mut self,
        fee_amount: u64,
        ref_rate: u16,
        protocol_fee_rate: u16,
        is_token_a: bool,
    ) -> (r: (u64, u64))
        requires
            protocol_fee_rate <= PROTOCOL_FEE_DENOMNINATOR,
            ref_rate <= PROTOCOL_FEE_DENOMNINATOR,
        ensures
            *final(self) == fee_updated(*old(self), fee_amount, protocol_fee_rate, is_token_a),
            r.0 == ref_fee_of(protocol_fee_of(fee_amount, protocol_fee_rate), ref_rate),
            r.0 + r.1 == protocol_fee_of(fee_amount, protocol_fee_rate),
    {
        proof {
            assert((fee_amount * protocol_fee_rate + 10_000 - 1) / 10_000 as int <= fee_amount)
                by (nonlinear_arith)
                requires
                    protocol_fee_rate <= 10_000,
            ;
        }
        let mut protocol_fee = fee_amount.mul_div_ceil(
            protocol_fee_rate as u64,
            PROTOCOL_FEE_DENOMNINATOR,
        );
        let pool_fee = fee_amount - protocol_fee;
        if is_token_a {
            self.fee_protocol_token_a = self.fee_protocol_token_a.wrapping_add(protocol_fee);
        } else {
            self.fee_protocol_token_b = self.fee_protocol_token_b.wrapping_add(protocol_fee);
        }
        proof {
            assert(protocol_fee * ref_rate / 10_000 as int <= protocol_fee) by (nonlinear_arith)
                requires
                    ref_rate <= 10_000,
            ;
        }
        let ref_fee = if ref_rate == 0 {
            0u64
        } else {
            protocol_fee.mul_div_floor(ref_rate as u64, PROTOCOL_FEE_DENOMNINATOR)
        };
        protocol_fee = protocol_fee - ref_fee;
        if pool_fee == 0 || self.liquidity == 0 {
            return (ref_fee, protocol_fee);
        }
        proof {
            assert(pool_fee * pow64() / self.liquidity as int <= pool_fee * pow64()) by (nonlinear_arith)
                requires
                    self.liquidity >= 1,
            ;
            assert(pool_fee * pow64() <= u128::MAX) by (nonlinear_arith)
                requires
                    pool_fee <= u64::MAX,
                    pow64() == u64::MAX + 1,
            ;
        }
        let growth_fee = (pool_fee as u128 * 0x1_0000_0000_0000_0000) / self.liquidity;
        if is_token_a {
            self.fee_growth_global_a = self.fee_growth_global_a.wrapping_add(growth_fee);
        } else {
            self.fee_growth_global_b = self.fee_growth_global_b.wrapping_add(growth_fee);
        }
        (ref_fee, protocol_fee)
    }
}

} // verus!
