use crema_clmm::clmmpool::Clmmpool;
use crema_clmm::sighash::{discriminator_of, sighash, sighash_preimage};
use crema_clmm::swap_with_partner::swap_tick_array_indexes;
use crema_clmm::tick_array::TickArray;
use crema_clmm::tick_array_map::TickArrayMap;
use solana_program::pubkey::Pubkey;

#[test]
fn sighash_is_the_digest_prefix() {
    let preimage = sighash_preimage("global", "swap_with_partner");
    assert_eq!(preimage, b"global:swap_with_partner".to_vec());
    let digest = solana_program::hash::hash(&preimage).to_bytes();
    let expected: [u8; 8] = digest[..8].try_into().unwrap();
    assert_eq!(sighash("global", "swap_with_partner"), expected);
    assert_eq!(discriminator_of(&digest), expected);
    assert_ne!(sighash("global", "swap"), expected);
}

#[test]
fn tick_array_address_uses_its_seeds() {
    let pool = [7u8; 32];
    let program = [3u8; 32];
    let (expected, _) = Pubkey::find_program_address(
        &[b"tick_array", &pool, &300u16.to_le_bytes()],
        &Pubkey::new_from_array(program),
    );
    assert_eq!(TickArray::find_address(&pool, 300, &program), Some(expected.to_bytes()));
    assert_ne!(TickArray::find_address(&pool, 301, &program), Some(expected.to_bytes()));
}

#[test]
fn bitmap_address_uses_its_seeds() {
    let pool = [7u8; 32];
    let program = [3u8; 32];
    let (expected, _) =
        Pubkey::find_program_address(&[b"tick_array_map", &pool], &Pubkey::new_from_array(program));
    assert_eq!(TickArrayMap::find_address(&pool, &program), Some(expected.to_bytes()));
    assert_eq!(Clmmpool::get_tick_map_address(&pool, &program), Some(expected.to_bytes()));
}

#[test]
fn swap_arrays_follow_the_bitmap() {
    let mut map = TickArrayMap::default();
    for b in [690usize, 693, 700, 701] {
        map.bitmap[b / 8] |= 1u8 << (b % 8);
    }
    // Tick 0 at spacing 10 lies in array 693.
    assert_eq!(swap_tick_array_indexes(&map, 0, 10, true), Some(vec![693, 690]));
    assert_eq!(swap_tick_array_indexes(&map, 0, 10, false), Some(vec![693, 700, 701]));
    // Tick 700 lies in array 694, which does not exist.
    assert_eq!(swap_tick_array_indexes(&map, 700, 10, false), Some(vec![700, 701]));
    assert_eq!(swap_tick_array_indexes(&map, 443_630, 10, false), None);
}
