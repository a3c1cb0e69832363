//! A fixed window of 64 consecutive ticks of one pool.
use crate::tick::Tick;
use crate::tick_math::{MAX_TICK, MIN_TICK};
use vstd::prelude::*;

verus! {

pub const CAP: usize = 64;

/// The ticks `start_tick_index + k * tick_spacing` for `k` in `0..64`.
#[derive(Clone, Copy)]
pub struct TickArray {
    /// The tick array index in tick array bit map.
    pub array_index: u16,
    /// The tick spacing
    pub tick_spacing: u16,
    /// The pool's address.
    pub clmmpool: [u8; 32],
    /// The ticks.
    pub ticks: [Tick; 64],
}

/// The lowest tick usable at a spacing.
pub open spec fn min_tick_at(tick_spacing: u16) -> int {
    MIN_TICK + 443636int % (tick_spacing as int)
}

/// The highest tick usable at a spacing.
pub open spec fn max_tick_at(tick_spacing: u16) -> int {
    MAX_TICK - 443636int % (tick_spacing as int)
}

impl Default for TickArray {
    fn default() -> (r: TickArray)
        ensures
            r.array_index == 0,
            r.tick_spacing == 0,
            forall|i: int| 0 <= i < 64 ==> !(#[trigger] r.ticks@[i]).is_initialized,
    {
        let empty = Tick {
            is_initialized: false,
            index: 0,
            sqrt_price: 0,
            liquidity_net: 0,
            liquidity_gross: 0,
            fee_growth_outside_a: 0,
            fee_growth_outside_b: 0,
            reward_growth_outside: [0u128; 3],
        };
        TickArray { array_index: 0, tick_spacing: 0, clmmpool: [0u8; 32], ticks: [empty; 64] }
    }
}

impl TickArray {
    pub const CAP: usize = 64;

    pub const LEN: usize = 2 + 2 + 32 + Tick::LEN * 64;

    /// The first tick of the window.
    pub open spec fn start(self) -> int {
        min_tick_at(self.tick_spacing) + self.array_index * 64 * self.tick_spacing
    }

    /// The last tick of the window.
    pub open spec fn end(self) -> int {
        self.start() + 64 * self.tick_spacing - self.tick_spacing
    }

    /// A window of a real spacing that starts inside the tick range.
    pub open spec fn wf(self) -> bool {
        self.tick_spacing > 0 && self.start() <= MAX_TICK
    }

    /// The index of the window that holds `tick_index`.
    /// A tick below the lowest usable one, but less than a window below it,
    /// falls in window 0, as division truncating towards zero puts it.
    pub open spec fn array_index_spec(tick_index: int, tick_spacing: u16) -> u16 {
        if tick_index < min_tick_at(tick_spacing) {
            0
        } else {
            ((tick_index - min_tick_at(tick_spacing)) / (64 * tick_spacing as int)) as u16
        }
    }

    /// The index of the window that holds `tick_index`.
    pub fn array_index(tick_index: i32, tick_spacing: u16) -> (r: u16)
        requires
            tick_spacing > 0,
            MIN_TICK - 1 <= tick_index <= MAX_TICK + 1,
        ensures
            r == Self::array_index_spec(tick_index as int, tick_spacing),
            r <= 887273int / 64,
    {
        let min = Tick::min(tick_spacing);
        if tick_index < min {
            return 0;
        }
        let array_spacing: u32 = 64 * tick_spacing as u32;
        proof {
            assert((tick_index - min) / (array_spacing as int) <= (tick_index - min)) by (nonlinear_arith)
                requires
                    array_spacing >= 1,
                    tick_index - min >= 0,
            ;
            assert((tick_index - min) / (array_spacing as int) <= 887273int / 64) by (nonlinear_arith)
                requires
                    array_spacing >= 64,
                    0 <= tick_index - min <= 887273,
            ;
        }
        ((tick_index - min) as u32 / array_spacing) as u16
    }

    pub fn array_spacing(&self) -> (r: usize)
        ensures
            r == self.tick_spacing * 64,
    {
        self.tick_spacing as usize * CAP
    }

    pub fn start_tick_index(&self) -> (r: i32)
        requires
            self.wf(),
        ensures
            r == self.start(),
    {
        Tick::min(self.tick_spacing) + (self.array_index as i32 * 64 * self.tick_spacing as i32)
    }

    pub fn end_tick_index(&self) -> (r: i32)
        requires
            self.wf(),
        ensures
            r == self.end(),
    {
        self.start_tick_index() + (64 * self.tick_spacing as i32) - self.tick_spacing as i32
    }

    pub fn is_in_array(&self, tick_index: i32) -> (r: bool)
        requires
            self.wf(),
        ensures
            r == (self.start() <= tick_index <= self.end()),
    {
        tick_index >= self.start_tick_index() && tick_index <= self.end_tick_index()
    }

    pub fn is_min_tick_array(&self) -> (r: bool)
        requires
            self.wf(),
        ensures
            r == (self.start() == min_tick_at(self.tick_spacing)),
    {
        self.start_tick_index() == Tick::min(self.tick_spacing)
    }

    pub fn is_max_tick_array(&self) -> (r: bool)
        requires
            self.wf(),
        ensures
            r == (self.end() >= max_tick_at(self.tick_spacing)),
    {
        self.end_tick_index() >= Tick::max(self.tick_spacing)
    }

    /// The slot of `tick_index` in the window, for a tick at or after its start.
    pub fn tick_offset(self, tick_index: i32) -> (r: usize)
        requires
            self.wf(),
            self.start() <= tick_index,
        ensures
            r == (tick_index - self.start()) / (self.tick_spacing as int),
    {
        let start = self.start_tick_index();
        let distance: u64 = (tick_index as i64 - start as i64) as u64;
        proof {
            assert(distance as int / (self.tick_spacing as int) <= distance) by (nonlinear_arith)
                requires
                    self.tick_spacing >= 1,
            ;
        }
        (distance / self.tick_spacing as u64) as usize
    }

    /// The initialized tick stored for `tick_index`, if the window holds one.
    pub fn get_tick(&self, tick_index: i32) -> (r: Option<&Tick>)
        requires
            self.wf(),
        ensures
            match r {
                Some(t) => {
                    let off = (tick_index - self.start()) / (self.tick_spacing as int);
                    self.start() <= tick_index && off < 64 && *t == self.ticks@[off]
                        && t.is_initialized
                },
                None => !(self.start() <= tick_index && (tick_index - self.start()) / (
                self.tick_spacing as int) < 64 && self.ticks@[(tick_index - self.start()) / (
                self.tick_spacing as int)].is_initialized),
            },
    {
        if tick_index < self.start_tick_index() {
            return None;
        }
        let offset = self.tick_offset(tick_index);
        if offset < CAP {
            if self.ticks[offset].is_initialized {
                return Some(&self.ticks[offset]);
            }
        }
        None
    }

    /// The slots to scan for the next initialized tick from `tick_index`:
    /// downward (`a_to_b`) the slots up to and including it, upward the
    /// slots after it.
    pub fn search_range(&self, tick_index: i32, a_to_b: bool) -> (r: Option<(usize, usize)>)
        requires
            self.wf(),
        ensures
            r == self.search_range_spec(tick_index, a_to_b),
            r matches Some((s, e)) ==> s <= e < 64,
    {
        if a_to_b {
            if tick_index < self.start_tick_index() {
                return None;
            }
            let end = if tick_index >= self.end_tick_index() {
                CAP - 1
            } else {
                proof {
                    self.lemma_offset_in_window(tick_index);
                }
                self.tick_offset(tick_index)
            };
            Some((0, end))
        } else {
            if tick_index >= self.end_tick_index() {
                return None;
            }
            let start = if tick_index < self.start_tick_index() {
                0
            } else {
                proof {
                    self.lemma_offset_in_window(tick_index);
                }
                self.tick_offset(tick_index) + 1
            };
            Some((start, CAP - 1))
        }
    }

    proof fn lemma_offset_in_window(self, tick_index: i32)
        requires
            self.wf(),
            self.start() <= tick_index < self.end(),
        ensures
            (tick_index - self.start()) / (self.tick_spacing as int) < 63,
    {
        let s = self.tick_spacing as int;
        assert((tick_index - self.start()) / s < 63) by (nonlinear_arith)
            requires
                0 <= tick_index - self.start() < 63 * s,
                s > 0,
        ;
    }

    /// The nearest initialized tick from `tick_index` within the window:
    /// downward (`a_to_b`) the one at or below it, upward the one above it.
    pub fn get_next_initialized_tick(&self, tick_index: i32, a_to_b: bool) -> (r: Option<&Tick>)
        requires
            self.wf(),
        ensures
            match self.search_range_spec(tick_index, a_to_b) {
                None => r is None,
                Some((s, e)) => match r {
                    Some(t) => exists|i: int|
                        s <= i <= e && *t == self.ticks@[i] && t.is_initialized && (a_to_b ==> forall|
                            k: int,
                        | i < k <= e ==> !(#[trigger] self.ticks@[k]).is_initialized) && (!a_to_b
                            ==> forall|k: int| s <= k < i ==> !(#[trigger] self.ticks@[k]).is_initialized),
                    None => forall|k: int| s <= k <= e ==> !(#[trigger] self.ticks@[k]).is_initialized,
                },
            },
    {
        let range = self.search_range(tick_index, a_to_b);
        let (start, end) = match range {
            None => return None,
            Some(se) => se,
        };
        if a_to_b {
            let mut i: usize = end + 1;
            while i > start
                invariant
                    start <= i <= end + 1,
                    end < 64,
                    forall|k: int| i <= k <= end ==> !(#[trigger] self.ticks@[k]).is_initialized,
                    self.search_range_spec(tick_index, a_to_b) == Some((start, end)),
                    a_to_b,
                decreases i,
            {
                if self.ticks[i - 1].is_initialized {
                    assert(start <= i - 1 <= end && self.ticks@[i - 1] == self.ticks@[i - 1]);
                    return Some(&self.ticks[i - 1]);
                }
                i = i - 1;
            }
            None
        } else {
            let mut i: usize = start;
            while i <= end
                invariant
                    start <= i <= end + 1,
                    end < 64,
                    forall|k: int| start <= k < i ==> !(#[trigger] self.ticks@[k]).is_initialized,
                    self.search_range_spec(tick_index, a_to_b) == Some((start, end)),
                    !a_to_b,
                decreases end + 1 - i,
            {
                if self.ticks[i].is_initialized {
                    assert(start <= i <= end && self.ticks@[i as int] == self.ticks@[i as int]);
                    return Some(&self.ticks[i]);
                }
                i = i + 1;
            }
            None
        }
    }

    /// What `search_range` returns.
    pub open spec fn search_range_spec(self, tick_index: i32, a_to_b: bool) -> Option<(usize, usize)> {
        if a_to_b {
            if tick_index < self.start() {
                None
            } else if tick_index >= self.end() {
                Some((0usize, 63usize))
            } else {
                Some((0usize, ((tick_index - self.start()) / (self.tick_spacing as int)) as usize))
            }
        } else {
            if tick_index >= self.end() {
                None
            } else if tick_index < self.start() {
                Some((0usize, 63usize))
            } else {
                Some((((tick_index - self.start()) / (self.tick_spacing as int) + 1) as usize, 63usize))
            }
        }
    }

    /// Whether any tick of the window is initialized.
    pub fn is_tick_array_valid(&self) -> (r: bool)
        ensures
            r == exists|i: int| 0 <= i < 64 && (#[trigger] self.ticks@[i]).is_initialized,
    {
        let mut i: usize = 0;
        while i < CAP
            invariant
                i <= 64,
                forall|k: int| 0 <= k < i ==> !(#[trigger] self.ticks@[k]).is_initialized,
            decreases 64 - i,
        {
            if self.ticks[i].is_initialized {
                return true;
            }
            i = i + 1;
        }
        false
    }
}

} // verus!
