use cuttle::indices::{index_position, position_from_key, CuttleIndex, CuttleIndices};

#[test]
fn test_pos_and_index_to_u32() {
    assert_eq!(
        0b100000001,
        CuttleIndices::id_and_index_to_u32((
            &CuttleIndex {
                component_id: 1,
                extension_index: 0
            },
            &1
        ))
    );
    assert_eq!(
        0b10100000101,
        CuttleIndices::id_and_index_to_u32((
            &CuttleIndex {
                component_id: 5,
                extension_index: 0
            },
            &5
        ))
    );
    assert_eq!(
        0b11111111,
        CuttleIndices::id_and_index_to_u32((
            &CuttleIndex {
                component_id: 255,
                extension_index: 0
            },
            &0
        ))
    );

    let test = 0b10100000101;
    assert_eq!(5, test & 255);
    assert_eq!(5, test >> 8);
}

#[test]
fn packing_keeps_only_low_24_bits_of_index() {
    let pos = CuttleIndex { component_id: 7, extension_index: 3 };
    let packed = CuttleIndices::id_and_index_to_u32((&pos, &0x0123_4567));
    assert_eq!(packed & 255, 7);
    assert_eq!(packed >> 8, 0x0023_4567);
}

#[test]
fn packed_indices_come_in_key_order() {
    let mut indices = CuttleIndices::new();
    indices.set_index(CuttleIndex { extension_index: 1, component_id: 0 }, 9);
    indices.set_index(CuttleIndex { extension_index: 0, component_id: 2 }, 4);
    indices.set_index(CuttleIndex { extension_index: 0, component_id: 1 }, 3);
    assert_eq!(indices.iter_as_packed_u32s(), vec![(3 << 8) | 1, (4 << 8) | 2, 9 << 8]);
    assert!(indices.remove_index(CuttleIndex { extension_index: 0, component_id: 2 }));
    assert!(!indices.remove_index(CuttleIndex { extension_index: 0, component_id: 2 }));
    assert_eq!(indices.iter_as_packed_u32s(), vec![(3 << 8) | 1, 9 << 8]);
    assert_eq!(indices.group_id(), 0);
}

#[test]
fn set_index_overwrites_the_same_position() {
    let mut indices = CuttleIndices::new();
    let pos = CuttleIndex { extension_index: 0, component_id: 4 };
    indices.set_index(pos, 1);
    indices.set_index(pos, 2);
    assert_eq!(indices.iter_as_packed_u32s(), vec![(2 << 8) | 4]);
}

#[test]
fn keys_and_positions_round_trip() {
    let pos = CuttleIndex { extension_index: 2, component_id: 17 };
    let key = pos.key();
    assert_eq!(key, 2 * 256 + 17);
    assert_eq!(position_from_key(key), pos);
}

#[test]
fn index_position_looks_up_the_group() {
    let positions = [Some(3u8), None];
    assert_eq!(
        index_position(&positions, 0, 5),
        Some(CuttleIndex { component_id: 3, extension_index: 5 })
    );
    assert_eq!(index_position(&positions, 1, 5), None);
    assert_eq!(index_position(&positions, 2, 5), None);
}
