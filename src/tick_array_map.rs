//! The bitmap that records which tick arrays of a pool exist.
use vstd::arithmetic::power2::*;
use vstd::prelude::*;

verus! {

/// Number of bytes in the bitmap.
pub const BITMAP_BYTES: usize = 868;

/// One bit per tick array index, set where the array exists.
#[derive(Clone, Copy, Debug)]
pub struct TickArrayMap {
    pub bitmap: [u8; 868],
}

/// Whether bit `bit` of the little-endian bitmap is set.
pub open spec fn bit_set(bitmap: Seq<u8>, bit: int) -> bool {
    (bitmap[bit / 8] as nat / pow2((bit % 8) as nat)) % 2 == 1
}

/// `j` is the set bit nearest to `from` in the direction given: below it
/// where `shl`, above it otherwise.
pub open spec fn nearest_set(bitmap: Seq<u8>, from: int, shl: bool, j: int) -> bool {
    if shl {
        0 <= j < from && bit_set(bitmap, j) && forall|k: int| j < k < from ==> !#[trigger] bit_set(bitmap, k)
    } else {
        from < j <= TickArrayMap::MAX_BIT_INDEX && bit_set(bitmap, j) && forall|k: int|
            from < k < j ==> !#[trigger] bit_set(bitmap, k)
    }
}

/// No bit is set beyond `from` in the direction given.
pub open spec fn none_set(bitmap: Seq<u8>, from: int, shl: bool) -> bool {
    if shl {
        forall|k: int| 0 <= k < from ==> !#[trigger] bit_set(bitmap, k)
    } else {
        forall|k: int| from < k <= TickArrayMap::MAX_BIT_INDEX ==> !#[trigger] bit_set(bitmap, k)
    }
}

impl Default for TickArrayMap {
    /// A bitmap with no array recorded.
    fn default() -> (r: TickArrayMap)
        ensures
            forall|i: int| 0 <= i < 868 ==> r.bitmap@[i] == 0,
    {
        TickArrayMap { bitmap: [0u8; 868] }
    }
}

impl TickArrayMap {
    pub const MAX_BIT_INDEX: usize = 868 * 8 - 1;

    pub const MIN_BIT_INDEX: usize = 0;

    /// Whether the array with index `bit` exists.
    pub fn is_seted(&self, bit: usize) -> (r: bool)
        requires
            bit <= Self::MAX_BIT_INDEX,
        ensures
            r == bit_set(self.bitmap@, bit as int),
    {
        let word_index = bit / 8;
        let word = self.bitmap[word_index];
        if word == 0 {
            proof {
                lemma_pow2_pos((bit % 8) as nat);
                vstd::arithmetic::div_mod::lemma_div_of0(pow2((bit % 8) as nat) as int);
            }
            return false;
        }
        let word_bit = (bit % 8) as u8;
        proof {
            vstd::bits::lemma_u8_shr_is_div(word, word_bit);
        }
        (word >> word_bit) % 2 == 1
    }

    /// The nearest set bit strictly above `bit` (`shl` false) or strictly
    /// below it (`shl` true), or `None` where there is none. Whole zero bytes
    /// are skipped.
    pub fn next_seted(&self, bit: usize, shl: bool) -> (r: Option<usize>)
        requires
            bit <= Self::MAX_BIT_INDEX,
        ensures
            match r {
                Some(j) => nearest_set(self.bitmap@, bit as int, shl, j as int),
                None => none_set(self.bitmap@, bit as int, shl),
            },
    {
        if shl {
            let mut j: usize = bit;
            while j > 0
                invariant
                    j <= bit <= Self::MAX_BIT_INDEX,
                    shl,
                    forall|k: int| j <= k < bit ==> !#[trigger] bit_set(self.bitmap@, k),
                decreases j,
            {
                if j % 8 == 0 && self.bitmap[j / 8 - 1] == 0 {
                    proof {
                        assert forall|k: int| j - 8 <= k < bit implies !#[trigger] bit_set(
                            self.bitmap@,
                            k,
                        ) by {
                            if k < j {
                                assert(k / 8 == j / 8 - 1);
                                lemma_pow2_pos((k % 8) as nat);
                                vstd::arithmetic::div_mod::lemma_div_of0(pow2((k % 8) as nat) as int);
                            }
                        }
                    }
                    j = j - 8;
                    continue;
                }
                if self.is_seted(j - 1) {
                    return Some(j - 1);
                }
                j = j - 1;
            }
            None
        } else {
            let mut j: usize = bit + 1;
            while j <= Self::MAX_BIT_INDEX
                invariant
                    bit < j <= Self::MAX_BIT_INDEX + 1,
                    !shl,
                    forall|k: int| bit < k < j ==> !#[trigger] bit_set(self.bitmap@, k),
                decreases Self::MAX_BIT_INDEX + 1 - j,
            {
                if j % 8 == 0 && self.bitmap[j / 8] == 0 {
                    proof {
                        assert forall|k: int| bit < k < j + 8 implies !#[trigger] bit_set(
                            self.bitmap@,
                            k,
                        ) by {
                            if k >= j {
                                assert(k / 8 == j / 8);
                                lemma_pow2_pos((k % 8) as nat);
                                vstd::arithmetic::div_mod::lemma_div_of0(pow2((k % 8) as nat) as int);
                            }
                        }
                    }
                    j = j + 8;
                    continue;
                }
                if self.is_seted(j) {
                    return Some(j);
                }
                j = j + 1;
            }
            None
        }
    }
}

} // verus!
