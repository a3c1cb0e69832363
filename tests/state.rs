use crema_clmm::clmmpool::{Clmmpool, Rewarder, Rewarders};
use crema_clmm::error::ErrorCode;
use crema_clmm::fetcher::{PoolInfo, TickArrayInfo, TickInfo};
use crema_clmm::tick::Tick;
use crema_clmm::tick_array::TickArray;
use crema_clmm::tick_array_map::TickArrayMap;
use crema_clmm::tick_math::get_sqrt_price_at_tick;

fn pool_with_rewards() -> Clmmpool {
    let mut pool = Clmmpool::default();
    pool.liquidity = 1_000;
    pool.fee_growth_global_a = 500;
    pool.fee_growth_global_b = 7;
    let mut rewarder = Rewarder::default();
    rewarder.mint = [9u8; 32];
    rewarder.growth_global = 40;
    pool.rewarder_infos = Rewarders([rewarder, Rewarder::default(), Rewarder::default()]);
    pool
}

fn tick_with(net: i128) -> Tick {
    Tick {
        is_initialized: true,
        index: 10,
        sqrt_price: get_sqrt_price_at_tick(10).unwrap(),
        liquidity_net: net,
        liquidity_gross: net.unsigned_abs(),
        fee_growth_outside_a: 100,
        fee_growth_outside_b: 20,
        reward_growth_outside: [10, 11, 12],
    }
}

#[test]
fn crossing_up_then_down_restores_liquidity() {
    let pool = pool_with_rewards();
    let before = tick_with(250);
    let mut tick = before;
    let up = tick.cross_update(&pool, false).unwrap();
    assert_eq!(up, 1_250);
    assert_eq!(tick.fee_growth_outside_a, 400);
    assert_eq!(tick.fee_growth_outside_b, 7u128.wrapping_sub(20));
    assert_eq!(tick.reward_growth_outside, [30, 11, 12]);
    let mut after = pool;
    after.liquidity = up;
    let down = tick.cross_update(&after, true).unwrap();
    assert_eq!(down, 1_000);
    assert_eq!(tick, before);
}

#[test]
fn crossing_fails_without_changes() {
    let pool = pool_with_rewards();
    let mut tick = tick_with(2_000);
    assert_eq!(tick.cross_update(&pool, true), Err(ErrorCode::LiquidityUnderflow));
    assert_eq!(tick, tick_with(2_000));
    let mut full = pool;
    full.liquidity = u128::MAX;
    assert_eq!(tick.cross_update(&full, false), Err(ErrorCode::LiquidityOverflow));
    let mut extreme = tick_with(i128::MIN);
    assert_eq!(extreme.cross_update(&pool, false), Err(ErrorCode::LiquidityUnderflow));
}

#[test]
fn fee_growth_inside_a_range() {
    let mut pool = pool_with_rewards();
    pool.current_tick_index = 0;
    let lower = Tick { fee_growth_outside_a: 100, fee_growth_outside_b: 2, ..Tick::default() };
    let upper = Tick { fee_growth_outside_a: 50, fee_growth_outside_b: 1, ..Tick::default() };
    assert_eq!(Tick::get_fee_in_tick_range(&pool, Some(&lower), Some(&upper), -10, 10), (350, 4));
    assert_eq!(Tick::get_fee_in_tick_range(&pool, None, None, -10, 10), (0, 0));
    // Both ticks above the price: growth between them is lower.outside - upper.outside.
    assert_eq!(Tick::get_fee_in_tick_range(&pool, Some(&lower), Some(&upper), 5, 10), (50, 1));
}

#[test]
fn fee_split_between_protocol_referrer_and_pool() {
    let mut pool = pool_with_rewards();
    let (ref_fee, protocol_fee) = pool.update_fee(1_000, 2_000, 1_500, true);
    // protocol: ceil(1000 * 1500 / 10000) = 150; referrer: 150 * 2000 / 10000 = 30.
    assert_eq!((ref_fee, protocol_fee), (30, 120));
    assert_eq!(pool.fee_protocol_token_a, 150);
    assert_eq!(pool.fee_growth_global_a, 500 + ((850u128 << 64) / 1_000));
    assert_eq!(pool.fee_growth_global_b, 7);
    let mut empty = Clmmpool::default();
    assert_eq!(empty.update_fee(1_000, 0, 1_500, false), (0, 150));
    assert_eq!(empty.fee_growth_global_b, 0);
    assert_eq!(empty.fee_protocol_token_b, 150);
}

#[test]
fn rewarder_with_mint_is_initialized() {
    assert!(!Rewarder::default().is_initialized());
    let mut r = Rewarder::default();
    r.mint[31] = 1;
    assert!(r.is_initialized());
}

fn array(array_index: u16, tick_spacing: u16, initialized: &[usize]) -> TickArray {
    let mut a = TickArray::default();
    a.array_index = array_index;
    a.tick_spacing = tick_spacing;
    let start = Tick::min(tick_spacing) + (array_index as i32) * 64 * tick_spacing as i32;
    for &i in initialized {
        a.ticks[i].is_initialized = true;
        a.ticks[i].index = start + i as i32 * tick_spacing as i32;
    }
    a
}

#[test]
fn tick_array_window() {
    assert_eq!(TickArray::array_index(0, 10), 693);
    assert_eq!(TickArray::array_index(-443630, 10), 0);
    assert_eq!(TickArray::array_index(-443636, 60), 0);
    assert_eq!(TickArray::array_index(-443637, 10), 0);
    assert_eq!(TickArray::array_index(-443580 + 3840, 60), 1);
    let a = array(693, 10, &[3, 40]);
    assert_eq!(a.start_tick_index(), -443630 + 693 * 640);
    assert_eq!(a.end_tick_index(), a.start_tick_index() + 630);
    assert!(a.is_in_array(a.start_tick_index()));
    assert!(!a.is_in_array(a.end_tick_index() + 1));
    assert_eq!(a.array_spacing(), 640);
    assert!(!a.is_min_tick_array());
    assert!(array(0, 10, &[]).is_min_tick_array());
    assert!(!a.is_max_tick_array());
    assert!(a.is_tick_array_valid());
    assert!(!array(5, 10, &[]).is_tick_array_valid());
    assert_eq!(a.tick_offset(a.start_tick_index() + 35), 3);
}

#[test]
fn next_initialized_tick_in_window() {
    let a = array(693, 10, &[3, 40]);
    let start = a.start_tick_index();
    assert_eq!(a.get_next_initialized_tick(start + 100, true).map(|t| t.index), Some(start + 30));
    assert_eq!(a.get_next_initialized_tick(start + 30, true).map(|t| t.index), Some(start + 30));
    assert_eq!(a.get_next_initialized_tick(start + 29, true).map(|t| t.index), None);
    assert_eq!(a.get_next_initialized_tick(start + 30, false).map(|t| t.index), Some(start + 400));
    assert_eq!(a.get_next_initialized_tick(start - 1, false).map(|t| t.index), Some(start + 30));
    assert_eq!(a.get_next_initialized_tick(start + 400, false).map(|t| t.index), None);
    assert_eq!(a.search_range(start - 1, true), None);
    assert_eq!(a.search_range(start + 10_000, false), None);
    assert_eq!(a.get_tick(start + 30).map(|t| t.index), Some(start + 30));
    assert_eq!(a.get_tick(start + 40).map(|t| t.index), None);
    assert_eq!(a.get_tick(start - 10).map(|t| t.index), None);
}

#[test]
fn swap_walks_ticks_nearest_first() {
    let mut pool = Clmmpool::default();
    pool.tick_spacing = 10;
    pool.current_tick_index = 0;
    let mk = |index: i32| TickInfo::from(&Tick { is_initialized: true, index, ..Tick::default() });
    let a = array(692, 10, &[]);
    let b = array(693, 10, &[]);
    let c = array(694, 10, &[]);
    let info = PoolInfo {
        pool,
        tick_array_map: TickArrayMap::default(),
        tick_arrays: vec![
            TickArrayInfo::from([1u8; 32], &a),
            TickArrayInfo::from([2u8; 32], &b),
            TickArrayInfo::from([3u8; 32], &c),
        ],
        ticks: vec![mk(-20), mk(-10), mk(0), mk(10), mk(20)],
    };
    let (arrays, down) = info.ticks_for_swap(true, 100);
    assert_eq!(down.iter().map(|t| t.index).collect::<Vec<_>>(), vec![0, -10, -20]);
    assert_eq!(arrays, vec![[2u8; 32], [1u8; 32]]);
    let (arrays, up) = info.ticks_for_swap(false, 0);
    assert_eq!(up.iter().map(|t| t.index).collect::<Vec<_>>(), vec![10, 20]);
    assert_eq!(arrays, vec![[2u8; 32]]);
}

#[test]
fn initialized_tick_indexes_in_slot_order() {
    let a = array(693, 10, &[40, 3]);
    let info = TickArrayInfo::from([0u8; 32], &a);
    let start = a.start_tick_index();
    assert_eq!(info.initialized_tick_indexes(), vec![start + 30, start + 400]);
}
