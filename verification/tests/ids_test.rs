use guesser_backend::ids::{PlayerId, PlayerIdCounter, RoomCode, RoomId};

const ALPHABET: &[u8; 32] = b"ABCDEFGHJKLMNPQRSTUVWXYZ23456789";

#[test]
fn room_code_is_six_chars_from_alphabet() {
    let id = RoomId::new();
    let code = id.to_room_code();
    assert_eq!(code.0.len(), 6);
    for ch in code.0.bytes() {
        assert!(ALPHABET.contains(&ch), "unexpected char: {}", ch as char);
    }
}

#[test]
fn room_code_decode_matches_lower_bits() {
    let id = RoomId(0xDEAD_BEEF);
    let code = id.to_room_code();
    let decoded = code.decode().unwrap();
    assert_eq!(decoded, 0xDEAD_BEEF & 0x3FFF_FFFF);
}

#[test]
fn room_code_deterministic_for_same_id() {
    let id = RoomId(42);
    assert_eq!(id.to_room_code(), id.to_room_code());
}

#[test]
fn room_code_invalid_chars_rejected() {
    // 'O' is not in the alphabet
    let bad = RoomCode("OOOOOO".to_string());
    assert!(bad.decode().is_none());
}

#[test]
fn room_code_wrong_length_rejected() {
    assert!(RoomCode("ABC".to_string()).decode().is_none());
    assert!(RoomCode("ABCDEFGH".to_string()).decode().is_none());
}

#[test]
fn player_ids_are_monotonic() {
    let mut counter = PlayerIdCounter::new();
    let a = PlayerId::new(&mut counter);
    let b = PlayerId::new(&mut counter);
    assert!(b.0 > a.0);
}

#[test]
fn player_ids_are_unique() {
    let mut counter = PlayerIdCounter::new();
    let ids: Vec<PlayerId> = (0..100).map(|_| PlayerId::new(&mut counter)).collect();
    let unique: std::collections::HashSet<_> = ids.iter().collect();
    assert_eq!(unique.len(), ids.len());
}

#[test]
fn room_code_of_zero_is_all_first_letter() {
    assert_eq!(RoomId(0).to_room_code().0, "AAAAAA");
}

#[test]
fn room_code_puts_low_bits_first() {
    // 1 in the lowest five bits, 31 in the next five.
    assert_eq!(RoomId(1 | (31 << 5)).to_room_code().0, "B9AAAA");
}

#[test]
fn room_code_ignores_bits_above_thirty() {
    assert_eq!(RoomId(5).to_room_code(), RoomId(5 | (1 << 30)).to_room_code());
}

#[test]
fn lower_case_code_is_rejected() {
    assert!(RoomCode("aaaaaa".to_string()).decode().is_none());
}

#[test]
fn every_valid_code_round_trips() {
    let code = RoomCode("X7K2M3".to_string());
    let value = code.decode().unwrap();
    assert_eq!(RoomId(value).to_room_code(), code);
}

#[test]
fn first_player_id_is_one() {
    let mut counter = PlayerIdCounter::new();
    assert_eq!(PlayerId::new(&mut counter).0, 1);
    assert_eq!(PlayerId::new(&mut counter).0, 2);
}

#[test]
fn ids_display_in_decimal() {
    assert_eq!(RoomId(12345).to_display_string(), "12345");
    assert_eq!(PlayerId(0).to_display_string(), "0");
    assert_eq!(RoomCode("ABCDEF".to_string()).to_display_string(), "ABCDEF");
}

#[test]
fn decoded_value_is_thirty_bits_and_codes_back() {
    for text in ["ZZZZZZ", "999999", "ABCDEF", "H4NKQ2"] {
        let code = RoomCode(text.to_string());
        let v = code.decode().unwrap();
        assert!(v <= 0x3FFF_FFFF);
        assert_eq!(RoomId(v).to_room_code(), code);
    }
}
