//! Where a pool's tick arrays and bitmap are stored: program-derived
//! addresses found from fixed seeds.
use crate::clmmpool::Clmmpool;
use crate::tick_array::TickArray;
use crate::tick_array_map::TickArrayMap;
use solana_program::pubkey::Pubkey;
use vstd::prelude::*;

verus! {

/// The program-derived address and bump seed that the search over bump
/// seeds finds for `seeds` under `program_id`, or `None` where no bump
/// seed gives an address off the curve.
pub uninterp spec fn program_address_search(seeds: Seq<Seq<u8>>, program_id: Seq<u8>) -> Option<(Seq<u8>, u8)>;

/// The seeds as byte sequences.
pub open spec fn seeds_view(seeds: Seq<Vec<u8>>) -> Seq<Seq<u8>> {
    seeds.map_values(|s: Vec<u8>| s@)
}

/// Relies on `Pubkey::try_find_program_address` of solana-program, which
/// hashes the seeds, a bump seed and the program id, and returns the first
/// address off the curve with its bump, trying bumps from 255 down; the
/// result depends on the seeds and the program id alone.
#[verifier::external_body]
fn try_find_program_address(seeds: &Vec<Vec<u8>>, program_id: &[u8; 32]) -> (r: Option<([u8; 32], u8)>)
    ensures
        match r {
            Some((address, bump)) => program_address_search(seeds_view(seeds@), program_id@) == Some(
                (address@, bump),
            ),
            None => program_address_search(seeds_view(seeds@), program_id@) is None,
        },
{
    let seed_refs: Vec<&[u8]> = seeds.iter().map(|s| s.as_slice()).collect();
    Pubkey::try_find_program_address(&seed_refs, &Pubkey::new_from_array(*program_id)).map(
        |(key, bump)| (key.to_bytes(), bump),
    )
}

/// The address part of a search result.
pub open spec fn found_address(search: Option<(Seq<u8>, u8)>) -> Option<Seq<u8>> {
    match search {
        Some((address, _)) => Some(address),
        None => None,
    }
}

/// `b"tick_array"`.
pub open spec fn tick_array_seed() -> Seq<u8> {
    seq![116u8, 105, 99, 107, 95, 97, 114, 114, 97, 121]
}

/// `b"tick_array_map"`.
pub open spec fn tick_array_map_seed() -> Seq<u8> {
    tick_array_seed() + seq![95u8, 109, 97, 112]
}

/// The seeds of a tick array's address: the word, the pool's address and
/// the array index in little-endian bytes.
pub open spec fn tick_array_seeds(clmmpool: Seq<u8>, array_index: u16) -> Seq<Seq<u8>> {
    seq![tick_array_seed(), clmmpool, seq![(array_index % 256) as u8, (array_index / 256) as u8]]
}

/// The seeds of a pool's bitmap address: the word and the pool's address.
pub open spec fn tick_array_map_seeds(clmmpool: Seq<u8>) -> Seq<Seq<u8>> {
    seq![tick_array_map_seed(), clmmpool]
}

fn address_bytes(address: &[u8; 32]) -> (r: Vec<u8>)
    ensures
        r@ == address@,
{
    let mut r: Vec<u8> = Vec::new();
    let mut i: usize = 0;
    while i < 32
        invariant
            i <= 32,
            r@ == address@.subrange(0, i as int),
        decreases 32 - i,
    {
        r.push(address[i]);
        i = i + 1;
        proof {
            assert(r@ =~= address@.subrange(0, i as int));
        }
    }
    proof {
        assert(r@ =~= address@);
    }
    r
}

fn tick_array_seed_bytes() -> (r: Vec<u8>)
    ensures
        r@ == tick_array_seed(),
{
    let r: Vec<u8> = vec![116u8, 105, 99, 107, 95, 97, 114, 114, 97, 121];
    proof {
        assert(r@ =~= tick_array_seed());
    }
    r
}

fn tick_array_map_seed_bytes() -> (r: Vec<u8>)
    ensures
        r@ == tick_array_map_seed(),
{
    let r: Vec<u8> = vec![116u8, 105, 99, 107, 95, 97, 114, 114, 97, 121, 95, 109, 97, 112];
    proof {
        assert(r@ =~= tick_array_map_seed());
    }
    r
}

fn map_address(clmmpool: &[u8; 32], program_id: &[u8; 32]) -> (r: Option<[u8; 32]>)
    ensures
        match r {
            Some(a) => found_address(program_address_search(tick_array_map_seeds(clmmpool@), program_id@))
                == Some(a@),
            None => program_address_search(tick_array_map_seeds(clmmpool@), program_id@) is None,
        },
{
    let seeds: Vec<Vec<u8>> = vec![tick_array_map_seed_bytes(), address_bytes(clmmpool)];
    proof {
        assert(seeds_view(seeds@) =~= tick_array_map_seeds(clmmpool@));
    }
    match try_find_program_address(&seeds, program_id) {
        Some((address, _)) => Some(address),
        None => None,
    }
}

impl TickArray {
    /// The address of the tick array `array_index` of a pool.
    pub fn find_address(clmmpool: &[u8; 32], array_index: u16, program_id: &[u8; 32]) -> (r: Option<[u8; 32]>)
        ensures
            match r {
                Some(a) => found_address(
                    program_address_search(tick_array_seeds(clmmpool@, array_index), program_id@),
                ) == Some(a@),
                None => program_address_search(tick_array_seeds(clmmpool@, array_index), program_id@) is None,
            },
    {
        let index_bytes: Vec<u8> = vec![(array_index % 256) as u8, (array_index / 256) as u8];
        let seeds: Vec<Vec<u8>> = vec![tick_array_seed_bytes(), address_bytes(clmmpool), index_bytes];
        proof {
            assert(index_bytes@ =~= seq![(array_index % 256) as u8, (array_index / 256) as u8]);
            assert(seeds_view(seeds@) =~= tick_array_seeds(clmmpool@, array_index));
        }
        match try_find_program_address(&seeds, program_id) {
            Some((address, _)) => Some(address),
            None => None,
        }
    }
}

impl TickArrayMap {
    /// The address of a pool's bitmap.
    pub fn find_address(clmmpool: &[u8; 32], program_id: &[u8; 32]) -> (r: Option<[u8; 32]>)
        ensures
            match r {
                Some(a) => found_address(program_address_search(tick_array_map_seeds(clmmpool@), program_id@))
                    == Some(a@),
                None => program_address_search(tick_array_map_seeds(clmmpool@), program_id@) is None,
            },
    {
        map_address(clmmpool, program_id)
    }
}

impl Clmmpool {
    /// The address of a pool's bitmap.
    pub fn get_tick_map_address(pool: &[u8; 32], program_id: &[u8; 32]) -> (r: Option<[u8; 32]>)
        ensures
            match r {
                Some(a) => found_address(program_address_search(tick_array_map_seeds(pool@), program_id@))
                    == Some(a@),
                None => program_address_search(tick_array_map_seeds(pool@), program_id@) is None,
            },
    {
        map_address(pool, program_id)
    }
}

} // verus!
