//! What a swap instruction needs besides its accounts: its arguments and the
//! tick arrays it walks, nearest first.
use crate::tick_array::TickArray;
use crate::tick_array_map::{bit_set, nearest_set, none_set, TickArrayMap};
use crate::tick_math::{MAX_TICK, MIN_TICK};
use vstd::prelude::*;

verus! {

/// The arguments of the swap instruction.
#[derive(Clone, Copy, Debug, PartialEq, Eq, Structural)]
pub struct SwapWithPartnerArgs {
    pub a_to_b: bool,
    pub by_amount_in: bool,
    pub amount: u64,
    pub amount_limit: u64,
    pub sqrt_price_limit: u128,
}

/// The number of tick arrays a swap instruction passes.
pub const SWAP_TICK_ARRAYS: usize = 3;

/// The tick arrays a swap from `current_tick_index` walks, nearest first:
/// the array holding the current tick where it exists, else the nearest
/// existing one in the swap's direction, then each next existing one, at
/// most three. `None` where no array exists from the current one on, or
/// where the current array lies beyond the bitmap.
pub fn swap_tick_array_indexes(
    map: &TickArrayMap,
    current_tick_index: i32,
    tick_spacing: u16,
    a_to_b: bool,
) -> (r: Option<Vec<u16>>)
    requires
        tick_spacing > 0,
        MIN_TICK - 1 <= current_tick_index <= MAX_TICK,
    ensures
        ({
            let pool_index = TickArray::array_index_spec(current_tick_index as int, tick_spacing) as int;
            match r {
                None => pool_index > TickArrayMap::MAX_BIT_INDEX || (!bit_set(map.bitmap@, pool_index)
                    && none_set(map.bitmap@, pool_index, a_to_b)),
                Some(v) => 1 <= v@.len() <= 3 && (if bit_set(map.bitmap@, pool_index) {
                    v@[0] == pool_index
                } else {
                    nearest_set(map.bitmap@, pool_index, a_to_b, v@[0] as int)
                }) && (forall|k: int|
                    0 <= k < v@.len() - 1 ==> nearest_set(map.bitmap@, #[trigger] v@[k] as int, a_to_b, v@[k + 1] as int))
                    && (v@.len() < 3 ==> none_set(map.bitmap@, v@[v@.len() - 1] as int, a_to_b)),
            }
        }),
{
    let pool_array_index = TickArray::array_index(current_tick_index, tick_spacing);
    if pool_array_index as usize > TickArrayMap::MAX_BIT_INDEX {
        return None;
    }
    let mut expect_array_index: u16 = if map.is_seted(pool_array_index as usize) {
        pool_array_index
    } else {
        match map.next_seted(pool_array_index as usize, a_to_b) {
            Some(i) => i as u16,
            None => return None,
        }
    };
    let ghost first = expect_array_index;
    let mut indexes: Vec<u16> = vec![expect_array_index];
    while indexes.len() < SWAP_TICK_ARRAYS
        invariant
            1 <= indexes@.len() <= 3,
            expect_array_index == indexes@[indexes@.len() - 1],
            expect_array_index <= TickArrayMap::MAX_BIT_INDEX,
            forall|k: int|
                0 <= k < indexes@.len() - 1 ==> nearest_set(
                    map.bitmap@,
                    #[trigger] indexes@[k] as int,
                    a_to_b,
                    indexes@[k + 1] as int,
                ),
            indexes@[0] == first,
        ensures
            1 <= indexes@.len() <= 3,
            forall|k: int|
                0 <= k < indexes@.len() - 1 ==> nearest_set(
                    map.bitmap@,
                    #[trigger] indexes@[k] as int,
                    a_to_b,
                    indexes@[k + 1] as int,
                ),
            indexes@.len() < 3 ==> none_set(map.bitmap@, indexes@[indexes@.len() - 1] as int, a_to_b),
            indexes@[0] == first,
        decreases 3 - indexes@.len(),
    {
        match map.next_seted(expect_array_index as usize, a_to_b) {
            Some(next) => {
                expect_array_index = next as u16;
                indexes.push(expect_array_index);
            },
            None => break,
        }
    }
    Some(indexes)
}

} // verus!
