use weigand_access::artifactory::hex::{decode_hex, hex_digit, old_door_pi_hex_str_to_rfid, HexError};
use weigand_access::artifactory::keys::{weigand_to_key, Key, Keys};
use weigand_access::io::weigand::Weigand;

fn key(name: &str, door_id: u32) -> Key {
    Key { name: name.to_string(), groups: vec!["staff".to_string()], door_id }
}

fn frame_of(facility: u32, card: u32) -> u32 {
    (facility << 24) | (card << 2)
}

#[test]
fn legacy_identifier_is_the_big_endian_number_after_the_header() {
    assert_eq!(old_door_pi_hex_str_to_rfid("abcd00000102"), Ok(258));
    assert_eq!(old_door_pi_hex_str_to_rfid("000001020304"), Ok(0x0102_0304));
    assert_eq!(old_door_pi_hex_str_to_rfid("0000ffffffff"), Ok(4_294_967_295));
    assert_eq!(old_door_pi_hex_str_to_rfid("0000FfFfFfFe"), Ok(4_294_967_294));
}

#[test]
fn the_header_is_dropped_unread() {
    assert_eq!(old_door_pi_hex_str_to_rfid("zz!?00000102"), Ok(258));
    assert_eq!(old_door_pi_hex_str_to_rfid("ffff00000102"), Ok(258));
}

#[test]
fn bytes_after_the_fourth_are_ignored() {
    assert_eq!(old_door_pi_hex_str_to_rfid("000000000102aabb"), Ok(258));
}

#[test]
fn a_string_shorter_than_the_header_is_refused() {
    assert_eq!(old_door_pi_hex_str_to_rfid(""), Err(HexError::MissingHeader));
    assert_eq!(old_door_pi_hex_str_to_rfid("abc"), Err(HexError::MissingHeader));
}

#[test]
fn an_odd_number_of_digits_is_refused() {
    assert_eq!(old_door_pi_hex_str_to_rfid("abcd0000010"), Err(HexError::OddLength));
    assert_eq!(old_door_pi_hex_str_to_rfid("abcdg"), Err(HexError::OddLength));
}

#[test]
fn a_character_that_is_no_digit_is_refused_with_its_position() {
    assert_eq!(
        old_door_pi_hex_str_to_rfid("abcd0000g102"),
        Err(HexError::InvalidDigit { index: 4 })
    );
    assert_eq!(
        old_door_pi_hex_str_to_rfid("abcd0000010x"),
        Err(HexError::InvalidDigit { index: 7 })
    );
    assert_eq!(
        old_door_pi_hex_str_to_rfid("abcd+f000102"),
        Err(HexError::InvalidDigit { index: 0 })
    );
    assert_eq!(
        old_door_pi_hex_str_to_rfid("abcd00é00102"),
        Err(HexError::InvalidDigit { index: 2 })
    );
}

#[test]
fn fewer_than_four_bytes_are_refused() {
    assert_eq!(old_door_pi_hex_str_to_rfid("abcd"), Err(HexError::TooShort));
    assert_eq!(old_door_pi_hex_str_to_rfid("abcd000102"), Err(HexError::TooShort));
}

#[test]
fn hex_digits_have_their_values() {
    assert_eq!(hex_digit('0'), Some(0));
    assert_eq!(hex_digit('9'), Some(9));
    assert_eq!(hex_digit('a'), Some(10));
    assert_eq!(hex_digit('f'), Some(15));
    assert_eq!(hex_digit('A'), Some(10));
    assert_eq!(hex_digit('F'), Some(15));
    for other in ['g', 'G', '/', ':', '@', '`', ' ', '+', '-', 'é', '\u{ff10}'] {
        assert_eq!(hex_digit(other), None, "{other:?}");
    }
}

#[test]
fn hex_decodes_pairs_of_digits() {
    assert_eq!(decode_hex(""), Ok(vec![]));
    assert_eq!(decode_hex("00ff10"), Ok(vec![0x00, 0xff, 0x10]));
    assert_eq!(decode_hex("DeadBeef"), Ok(vec![0xde, 0xad, 0xbe, 0xef]));
    assert_eq!(decode_hex("abc"), Err(HexError::OddLength));
    assert_eq!(decode_hex("0g"), Err(HexError::InvalidDigit { index: 1 }));
    assert_eq!(decode_hex("xg"), Err(HexError::InvalidDigit { index: 0 }));
}

#[test]
fn identifier_is_card_number_times_four_plus_two_facility_bits() {
    let credential = Weigand::new(0x8704_0404).unwrap();
    assert_eq!(weigand_to_key(&credential), 65793 * 4 + 3);
    assert_eq!(weigand_to_key(&Weigand::new_unchecked(0)), 0);
    assert_eq!(weigand_to_key(&Weigand::new_unchecked(frame_of(1, 0))), 1);
    assert_eq!(weigand_to_key(&Weigand::new_unchecked(frame_of(2, 0))), 2);
    assert_eq!(weigand_to_key(&Weigand::new_unchecked(frame_of(0, 1))), 4);
    assert_eq!(
        weigand_to_key(&Weigand::new_unchecked(frame_of(127, 0x1F_FFFF))),
        0x1F_FFFF * 4 + 3
    );
}

#[test]
fn identifier_ignores_the_high_bits_of_the_facility_code() {
    for card in [0u32, 1, 65793, 0x1F_FFFF] {
        for low in 0..4u32 {
            let plain = weigand_to_key(&Weigand::new_unchecked(frame_of(low, card)));
            for high in 0..32u32 {
                let facility = (high << 2) | low;
                let other = weigand_to_key(&Weigand::new_unchecked(frame_of(facility, card)));
                assert_eq!(other, plain);
            }
            assert_eq!(plain, card as u64 * 4 + low as u64);
        }
    }
}

#[test]
fn key_getters_return_the_fields() {
    let record = key("Ada", 4);
    assert_eq!(record.get_name(), "Ada");
    assert_eq!(record.get_door_id(), 4);
}

#[test]
fn a_cloned_key_has_the_same_fields() {
    let record = Key {
        name: "Ada".to_string(),
        groups: vec!["staff".to_string(), "keyholders".to_string()],
        door_id: 9,
    };
    let copy = record.clone();
    assert_eq!(copy.name, "Ada");
    assert_eq!(copy.groups, vec!["staff".to_string(), "keyholders".to_string()]);
    assert_eq!(copy.door_id, 9);
}

#[test]
fn the_registry_files_each_record_under_its_identifier() {
    let listing = Keys::new(vec![
        ("000000000102".to_string(), key("Ada", 1)),
        ("000000040407".to_string(), key("Grace", 2)),
    ]);
    let registry = listing.get_keys().unwrap();
    assert_eq!(registry.len(), 2);
    assert_eq!(registry[&258].name, "Ada");
    assert_eq!(registry[&263_175].name, "Grace");
    assert_eq!(registry[&263_175].door_id, 2);
    assert_eq!(registry[&263_175].groups, vec!["staff".to_string()]);
    assert!(listing.duplicates().is_empty());
}

#[test]
fn a_listing_keeps_its_entries_in_order() {
    let listing = Keys::new(vec![
        ("000000000102".to_string(), key("Ada", 1)),
        ("xx".to_string(), key("Grace", 2)),
    ]);
    let entries = listing.entries();
    assert_eq!(entries.len(), 2);
    assert_eq!(entries[0].0, "000000000102");
    assert_eq!(entries[0].1.name, "Ada");
    assert_eq!(entries[1].0, "xx");
    assert_eq!(entries[1].1.door_id, 2);
}

#[test]
fn an_empty_listing_gives_an_empty_registry() {
    let listing = Keys::new(vec![]);
    assert!(listing.get_keys().unwrap().is_empty());
    assert!(listing.duplicates().is_empty());
}

#[test]
fn of_two_records_with_one_identifier_the_later_stands_and_is_flagged() {
    let listing = Keys::new(vec![
        ("aaaa00000102".to_string(), key("first", 1)),
        ("bbbb00000102".to_string(), key("second", 2)),
    ]);
    let registry = listing.get_keys().unwrap();
    assert_eq!(registry.len(), 1);
    assert_eq!(registry[&258].name, "second");
    assert_eq!(registry[&258].door_id, 2);
    assert_eq!(listing.duplicates(), vec![1]);
}

#[test]
fn every_repetition_is_flagged() {
    let listing = Keys::new(vec![
        ("000000000001".to_string(), key("a", 1)),
        ("000000000002".to_string(), key("b", 1)),
        ("000000000001".to_string(), key("c", 1)),
        ("000000000003".to_string(), key("d", 1)),
        ("000000000002".to_string(), key("e", 1)),
        ("000000000001".to_string(), key("f", 1)),
    ]);
    assert_eq!(listing.duplicates(), vec![2, 4, 5]);
    let registry = listing.get_keys().unwrap();
    assert_eq!(registry.len(), 3);
    assert_eq!(registry[&1].name, "f");
    assert_eq!(registry[&2].name, "e");
    assert_eq!(registry[&3].name, "d");
}

#[test]
fn the_first_entry_that_does_not_decode_fails_the_listing() {
    let listing = Keys::new(vec![
        ("000000000001".to_string(), key("a", 1)),
        ("00000000000".to_string(), key("b", 1)),
        ("xx".to_string(), key("c", 1)),
    ]);
    assert_eq!(listing.get_keys().err(), Some(HexError::OddLength));
    let listing = Keys::new(vec![
        ("xx".to_string(), key("c", 1)),
        ("00000000000".to_string(), key("b", 1)),
    ]);
    assert_eq!(listing.get_keys().err(), Some(HexError::MissingHeader));
}

#[test]
fn entries_that_do_not_decode_are_never_duplicates() {
    let listing = Keys::new(vec![
        ("xx".to_string(), key("a", 1)),
        ("xx".to_string(), key("b", 1)),
        ("000000000001".to_string(), key("c", 1)),
    ]);
    assert!(listing.duplicates().is_empty());
}
