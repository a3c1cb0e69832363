use crema_clmm::tick_array_map::TickArrayMap;

fn map_with(bits: &[usize]) -> TickArrayMap {
    let mut map = TickArrayMap::default();
    for &b in bits {
        map.bitmap[b / 8] |= 1u8 << (b % 8);
    }
    map
}

#[test]
fn next_set_bits_in_both_directions() {
    let map = map_with(&[5, 200, 201]);
    assert_eq!(map.next_seted(0, false), Some(5));
    assert_eq!(map.next_seted(5, false), Some(200));
    assert_eq!(map.next_seted(201, false), None);
    assert_eq!(map.next_seted(201, true), Some(200));
}

#[test]
fn next_set_bit_skips_the_start_and_empty_bytes() {
    let map = map_with(&[0, 9, TickArrayMap::MAX_BIT_INDEX]);
    assert_eq!(map.next_seted(9, true), Some(0));
    assert_eq!(map.next_seted(0, true), None);
    assert_eq!(map.next_seted(9, false), Some(TickArrayMap::MAX_BIT_INDEX));
    assert_eq!(map.next_seted(TickArrayMap::MAX_BIT_INDEX, false), None);
}

#[test]
fn is_seted_reads_single_bits() {
    let map = map_with(&[5, 200, 201]);
    assert!(map.is_seted(5));
    assert!(map.is_seted(201));
    assert!(!map.is_seted(4));
    assert!(!map.is_seted(202));
    assert!(!TickArrayMap::default().is_seted(0));
}
