//! A loaded snapshot of one pool: its state, its bitmap, its tick arrays and
//! its initialized ticks, and the ticks a swap walks through.
use crate::clmmpool::Clmmpool;
use crate::tick::Tick;
use crate::tick_array::TickArray;
use crate::tick_array_map::TickArrayMap;
use crate::tick_math::{MAX_TICK, MIN_TICK};
use std::collections::HashMap;
use vstd::prelude::*;

verus! {

/// A tick array together with its address.
#[derive(Clone, Copy)]
pub struct TickArrayInfo {
    pub address: [u8; 32],
    /// The tick array index in tick array bit map.
    pub array_index: u16,
    /// The tick spacing
    pub tick_spacing: u16,
    /// The ticks.
    pub ticks: [Tick; 64],
}

impl TickArrayInfo {
    pub fn from(address: [u8; 32], tick_array: &TickArray) -> (r: Self)
        ensures
            r.address == address,
            r.array_index == tick_array.array_index,
            r.tick_spacing == tick_array.tick_spacing,
            r.ticks == tick_array.ticks,
    {
        TickArrayInfo {
            address,
            array_index: tick_array.array_index,
            tick_spacing: tick_array.tick_spacing,
            ticks: tick_array.ticks,
        }
    }

    /// The indexes of the initialized ticks, in slot order.
    pub fn initialized_tick_indexes(&self) -> (r: Vec<i32>)
        ensures
            r@ == initialized_indexes(self.ticks@, 64),
    {
        let mut list: Vec<i32> = Vec::new();
        let mut i: usize = 0;
        while i < 64
            invariant
                i <= 64,
                list@ == initialized_indexes(self.ticks@, i as int),
            decreases 64 - i,
        {
            if self.ticks[i].is_initialized {
                list.push(self.ticks[i].index);
            }
            i = i + 1;
        }
        list
    }
}

/// The indexes of the initialized ticks among the first `n`.
pub open spec fn initialized_indexes(ticks: Seq<Tick>, n: int) -> Seq<i32>
    decreases n,
{
    if n <= 0 {
        Seq::empty()
    } else if ticks[n - 1].is_initialized {
        initialized_indexes(ticks, n - 1).push(ticks[n - 1].index)
    } else {
        initialized_indexes(ticks, n - 1)
    }
}

/// An initialized tick as loaded from a tick array.
#[derive(Clone, Copy)]
pub struct TickInfo {
    pub is_initialized: bool,
    pub index: i32,
    pub sqrt_price: u128,
    pub liquidity_net: i128,
    pub liquidity_gross: u128,
    pub fee_growth_outside_a: u128,
    pub fee_growth_outside_b: u128,
    pub reward_growth_outside: [u128; 3],
}

/// The tick a loaded record stands for.
pub open spec fn tick_of(t: TickInfo) -> Tick {
    Tick {
        is_initialized: t.is_initialized,
        index: t.index,
        sqrt_price: t.sqrt_price,
        liquidity_net: t.liquidity_net,
        liquidity_gross: t.liquidity_gross,
        fee_growth_outside_a: t.fee_growth_outside_a,
        fee_growth_outside_b: t.fee_growth_outside_b,
        reward_growth_outside: t.reward_growth_outside,
    }
}

impl TickInfo {
    pub fn from(t: &Tick) -> (r: Self)
        ensures
            tick_of(r) == *t,
    {
        TickInfo {
            is_initialized: t.is_initialized,
            index: t.index,
            sqrt_price: t.sqrt_price,
            liquidity_net: t.liquidity_net,
            liquidity_gross: t.liquidity_gross,
            fee_growth_outside_a: t.fee_growth_outside_a,
            fee_growth_outside_b: t.fee_growth_outside_b,
            reward_growth_outside: t.reward_growth_outside,
        }
    }

    pub fn to_tick(&self) -> (r: Tick)
        ensures
            r == tick_of(*self),
    {
        Tick {
            is_initialized: self.is_initialized,
            index: self.index,
            sqrt_price: self.sqrt_price,
            liquidity_net: self.liquidity_net,
            liquidity_gross: self.liquidity_gross,
            fee_growth_outside_a: self.fee_growth_outside_a,
            fee_growth_outside_b: self.fee_growth_outside_b,
            reward_growth_outside: self.reward_growth_outside,
        }
    }
}

/// A pool with its loaded tick arrays and initialized ticks, in increasing
/// order of array index and of tick index.
#[derive(Clone)]
pub struct PoolInfo {
    pub pool: Clmmpool,
    pub tick_array_map: TickArrayMap,
    pub tick_arrays: Vec<TickArrayInfo>,
    pub ticks: Vec<TickInfo>,
}

/// The ticks at or below `bound`, scanning from the last record down to record `i`.
pub open spec fn ticks_down_from(ticks: Seq<TickInfo>, bound: i32, i: int) -> Seq<Tick>
    decreases ticks.len() - i,
{
    if i >= ticks.len() || i < 0 {
        Seq::empty()
    } else {
        let rest = ticks_down_from(ticks, bound, i + 1);
        if ticks[i].index <= bound {
            rest.push(tick_of(ticks[i]))
        } else {
            rest
        }
    }
}

/// The ticks above `bound` among the first `n` records, in order.
pub open spec fn ticks_up_to(ticks: Seq<TickInfo>, bound: i32, n: int) -> Seq<Tick>
    decreases n,
{
    if n <= 0 {
        Seq::empty()
    } else {
        let rest = ticks_up_to(ticks, bound, n - 1);
        if ticks[n - 1].index > bound {
            rest.push(tick_of(ticks[n - 1]))
        } else {
            rest
        }
    }
}

/// Addresses of arrays at or below `bound`, scanning from the last down to
/// array `i`, keeping at most `limit + 1`.
pub open spec fn arrays_down_from(arrays: Seq<TickArrayInfo>, bound: u16, limit: usize, i: int) -> Seq<[u8; 32]>
    decreases arrays.len() - i,
{
    if i >= arrays.len() || i < 0 {
        Seq::empty()
    } else {
        let rest = arrays_down_from(arrays, bound, limit, i + 1);
        if arrays[i].array_index <= bound && rest.len() <= limit {
            rest.push(arrays[i].address)
        } else {
            rest
        }
    }
}

/// Addresses of arrays at or above `bound` among the first `n`, keeping at
/// most `limit + 1`.
pub open spec fn arrays_up_to(arrays: Seq<TickArrayInfo>, bound: u16, limit: usize, n: int) -> Seq<[u8; 32]>
    decreases n,
{
    if n <= 0 {
        Seq::empty()
    } else {
        let rest = arrays_up_to(arrays, bound, limit, n - 1);
        if arrays[n - 1].array_index >= bound && rest.len() <= limit {
            rest.push(arrays[n - 1].address)
        } else {
            rest
        }
    }
}

/// The initialized ticks among the first `n` records, by index; a later
/// record of the same index replaces an earlier one.
pub open spec fn ticks_by_index(ticks: Seq<TickInfo>, n: int) -> Map<i32, Tick>
    decreases n,
{
    if n <= 0 {
        Map::empty()
    } else if ticks[n - 1].is_initialized {
        ticks_by_index(ticks, n - 1).insert(ticks[n - 1].index, tick_of(ticks[n - 1]))
    } else {
        ticks_by_index(ticks, n - 1)
    }
}

impl PoolInfo {
    /// The initialized ticks by index.
    pub fn ticks_map(&self) -> (r: HashMap<i32, Tick>)
        ensures
            r@ == ticks_by_index(self.ticks@, self.ticks@.len() as int),
    {
        broadcast use vstd::std_specs::hash::group_hash_axioms;

        let mut ticks: HashMap<i32, Tick> = HashMap::new();
        let mut i: usize = 0;
        while i < self.ticks.len()
            invariant
                i <= self.ticks@.len(),
                ticks@ == ticks_by_index(self.ticks@, i as int),
            decreases self.ticks@.len() - i,
        {
            if self.ticks[i].is_initialized {
                ticks.insert(self.ticks[i].index, self.ticks[i].to_tick());
            }
            i = i + 1;
        }
        ticks
    }

    /// A real spacing, and a current tick in the tick range or one below it,
    /// as after crossing the lowest tick downward.
    pub open spec fn wf(&self) -> bool {
        self.pool.tick_spacing > 0 && MIN_TICK - 1 <= self.pool.current_tick_index <= MAX_TICK
    }

    /// The ticks a swap meets in its direction, nearest first: downward
    /// (`a2b`) those at or below the current tick, upward those above it;
    /// and the addresses of at most `limit + 1` tick arrays it may need.
    pub fn ticks_for_swap(&self, a2b: bool, limit: usize) -> (r: (Vec<[u8; 32]>, Vec<Tick>))
        requires
            self.wf(),
        ensures
            a2b ==> r.1@ == ticks_down_from(self.ticks@, self.pool.current_tick_index, 0),
            !a2b ==> r.1@ == ticks_up_to(self.ticks@, self.pool.current_tick_index, self.ticks@.len() as int),
            a2b ==> r.0@ == arrays_down_from(
                self.tick_arrays@,
                TickArray::array_index_spec(self.pool.current_tick_index as int, self.pool.tick_spacing),
                limit,
                0,
            ),
            !a2b ==> r.0@ == arrays_up_to(
                self.tick_arrays@,
                TickArray::array_index_spec(self.pool.current_tick_index + 1, self.pool.tick_spacing),
                limit,
                self.tick_arrays@.len() as int,
            ),
    {
        let mut ticks: Vec<Tick> = Vec::new();
        let mut array_addreses: Vec<[u8; 32]> = Vec::new();
        let current = self.pool.current_tick_index;
        if a2b {
            let next_array_index = TickArray::array_index(current, self.pool.tick_spacing);
            let mut idx: usize = self.tick_arrays.len();
            while idx > 0
                invariant
                    idx <= self.tick_arrays@.len(),
                    array_addreses@ == arrays_down_from(self.tick_arrays@, next_array_index, limit, idx as int),
                decreases idx,
            {
                idx = idx - 1;
                if self.tick_arrays[idx].array_index <= next_array_index && array_addreses.len() <= limit {
                    array_addreses.push(self.tick_arrays[idx].address);
                }
            }
            let mut idx: usize = self.ticks.len();
            while idx > 0
                invariant
                    idx <= self.ticks@.len(),
                    ticks@ == ticks_down_from(self.ticks@, current, idx as int),
                decreases idx,
            {
                idx = idx - 1;
                if self.ticks[idx].index <= current {
                    ticks.push(self.ticks[idx].to_tick());
                }
            }
        } else {
            let next_array_index = TickArray::array_index(current + 1, self.pool.tick_spacing);
            let mut idx: usize = 0;
            while idx < self.tick_arrays.len()
                invariant
                    idx <= self.tick_arrays@.len(),
                    array_addreses@ == arrays_up_to(self.tick_arrays@, next_array_index, limit, idx as int),
                decreases self.tick_arrays@.len() - idx,
            {
                if self.tick_arrays[idx].array_index >= next_array_index && array_addreses.len() <= limit {
                    array_addreses.push(self.tick_arrays[idx].address);
                }
                idx = idx + 1;
            }
            let mut idx: usize = 0;
            while idx < self.ticks.len()
                invariant
                    idx <= self.ticks@.len(),
                    ticks@ == ticks_up_to(self.ticks@, current, idx as int),
                decreases self.ticks@.len() - idx,
            {
                if self.ticks[idx].index > current {
                    ticks.push(self.ticks[idx].to_tick());
                }
                idx = idx + 1;
            }
        }
        (array_addreses, ticks)
    }
}

} // verus!
