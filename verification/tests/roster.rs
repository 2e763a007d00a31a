use spectre_core::roster::{
    copy_slots, decode_slot, get_player_count, get_player_list, name_from, read_player_slots,
    table_address, PlayerSlot, NAME_MAX, PLAYER_BUFFER_POINTER_ADDR, SLOT_COUNT, SLOT_IP_OFFSET,
    SLOT_NAME_OFFSET, SLOT_STRIDE, TABLE_SIZE,
};

fn table_with(players: &[(usize, [u8; 4], &[u8])]) -> Vec<u8> {
    let mut table = vec![0u8; TABLE_SIZE];
    for (slot, ip, name) in players {
        let base = slot * SLOT_STRIDE;
        table[base + SLOT_IP_OFFSET..base + SLOT_IP_OFFSET + 4].copy_from_slice(ip);
        table[base + SLOT_NAME_OFFSET..base + SLOT_NAME_OFFSET + name.len()].copy_from_slice(name);
    }
    table
}

#[test]
fn layout_constants() {
    assert_eq!(PLAYER_BUFFER_POINTER_ADDR, 0x009D6A50);
    assert_eq!(SLOT_COUNT, 32);
    assert_eq!(SLOT_STRIDE, 196);
    assert_eq!(SLOT_IP_OFFSET, 4);
    assert_eq!(SLOT_NAME_OFFSET, 8);
    assert_eq!(NAME_MAX, 188);
    assert_eq!(TABLE_SIZE, 6272);
}

#[test]
fn pointer_is_little_endian_and_null_means_no_roster() {
    assert_eq!(table_address(&[0x78, 0x56, 0x34, 0x12]), Some(0x12345678));
    assert_eq!(table_address(&[1, 0, 0, 0]), Some(1));
    assert_eq!(table_address(&[0, 0, 0, 0x80]), Some(0x8000_0000));
    assert_eq!(table_address(&[0xFF, 0xFF, 0xFF, 0xFF]), Some(u32::MAX));
    assert_eq!(table_address(&[0, 0, 0, 0]), None);
    assert_eq!(table_address(&[1, 2, 3]), None);
    assert_eq!(table_address(&[1, 2, 3, 4, 5]), None);
    assert_eq!(table_address(&[]), None);
}

#[test]
fn roster_round_trip() {
    let table = table_with(&[
        (0, [10, 0, 0, 5], b"Alice"),
        (3, [192, 168, 1, 200], b"  Bob the Builder  "),
        (31, [255, 255, 255, 255], b"Zed"),
    ]);
    let slots = read_player_slots(&table).unwrap();
    assert_eq!(slots.len(), 32);
    assert_eq!(slots[0].name, "Alice");
    assert_eq!(slots[0].ip, "10.0.0.5");
    assert_eq!(slots[3].name, "Bob the Builder");
    assert_eq!(slots[3].ip, "192.168.1.200");
    assert_eq!(slots[31].name, "Zed");
    assert_eq!(slots[31].ip, "255.255.255.255");
    for (i, slot) in slots.iter().enumerate() {
        if i != 0 && i != 3 && i != 31 {
            assert_eq!(slot.name, "");
            assert_eq!(slot.ip, "0.0.0.0");
        }
    }
    let connected = get_player_list(&slots);
    let names: Vec<&str> = connected.iter().map(|s| s.name.as_str()).collect();
    assert_eq!(names, vec!["Alice", "Bob the Builder", "Zed"]);
    let ips: Vec<&str> = connected.iter().map(|s| s.ip.as_str()).collect();
    assert_eq!(ips, vec!["10.0.0.5", "192.168.1.200", "255.255.255.255"]);
    assert_eq!(get_player_count(&slots, 64), (3, 64));
}

#[test]
fn empty_table_has_no_players() {
    let slots = read_player_slots(&vec![0u8; TABLE_SIZE]).unwrap();
    assert_eq!(slots.len(), 32);
    assert!(get_player_list(&slots).is_empty());
    assert_eq!(get_player_count(&slots, 16), (0, 16));
}

#[test]
fn partial_tables_are_refused() {
    assert!(read_player_slots(&vec![0u8; TABLE_SIZE - 1]).is_none());
    assert!(read_player_slots(&vec![0u8; TABLE_SIZE + 1]).is_none());
    assert!(read_player_slots(&[]).is_none());
}

#[test]
fn name_ends_at_the_first_zero_or_at_the_slots_end() {
    let mut bytes = vec![0u8; SLOT_STRIDE];
    bytes[SLOT_NAME_OFFSET..SLOT_NAME_OFFSET + 7].copy_from_slice(b"ab\0cdef");
    assert_eq!(decode_slot(&bytes).unwrap().name, "ab");
    let mut full = vec![b'x'; SLOT_STRIDE];
    full[SLOT_IP_OFFSET..SLOT_IP_OFFSET + 4].copy_from_slice(&[1, 2, 3, 4]);
    let slot = decode_slot(&full).unwrap();
    assert_eq!(slot.name.len(), NAME_MAX);
    assert!(slot.name.chars().all(|c| c == 'x'));
    assert_eq!(slot.ip, "1.2.3.4");
}

#[test]
fn names_are_decoded_leniently_and_trimmed() {
    let mut bytes = vec![0u8; SLOT_STRIDE];
    bytes[SLOT_NAME_OFFSET..SLOT_NAME_OFFSET + 6].copy_from_slice(&[b' ', 0xC3, 0xA9, b'!', 0xFF, b' ']);
    assert_eq!(decode_slot(&bytes).unwrap().name, "é!\u{FFFD}");
    let mut blank = vec![0u8; SLOT_STRIDE];
    blank[SLOT_NAME_OFFSET..SLOT_NAME_OFFSET + 3].copy_from_slice(b" \t ");
    let slot = decode_slot(&blank).unwrap();
    assert!(decode_slot(&blank[1..]).is_none());
    assert!(decode_slot(&[]).is_none());
    assert_eq!(slot.name, "");
    assert!(!slot.is_occupied());
    assert_eq!(name_from("  padded \r\n"), "padded");
}

#[test]
fn slots_can_be_made_and_copied() {
    let slot = PlayerSlot::new("Bob", "1.2.3.4");
    assert_eq!(slot.name, "Bob");
    assert_eq!(slot.ip, "1.2.3.4");
    assert!(slot.is_occupied());
    let twin = slot.copy();
    assert_eq!(twin.name, "Bob");
    assert_eq!(twin.ip, "1.2.3.4");
    let list = copy_slots(&vec![slot, PlayerSlot::new("", "0.0.0.0")]);
    assert_eq!(list.len(), 2);
    assert_eq!(list[0].name, "Bob");
    assert!(!list[1].is_occupied());
}
