//! Off-chain simulation engine for a concentrated-liquidity market maker:
//! wide fixed-point arithmetic, tick/price conversion, liquidity math,
//! sparse tick storage and a stepping swap simulator.
pub mod address;
pub mod bn;
pub mod clmm_math;
pub mod clmmpool;
pub mod error;
pub mod fetcher;
pub mod full_math;
pub mod quote;
pub mod sighash;
pub mod simulate_swap;
pub mod sqrt_price;
pub mod swap_with_partner;
pub mod tick;
pub mod tick_array;
pub mod tick_array_map;
pub mod tick_math;
