use guesser_backend::ids::{RoomCode, RoomId};
use guesser_backend::registry::{host_token_from, join_code_from, new_room_identity, RoomRegistry};

#[test]
fn registered_room_is_found_by_its_code() {
    let mut registry: RoomRegistry<&str> = RoomRegistry::new();
    let id = RoomId(0xDEAD_BEEF);
    registry.register(id, "mailbox");
    let code = id.to_room_code();
    assert_eq!(registry.get_id_by_code(&code), Some(id));
    let (found, sender) = registry.route_target_by_code(&code).unwrap();
    assert_eq!(found, id);
    assert_eq!(*sender, "mailbox");
    assert_eq!(registry.len(), 1);
    assert!(!registry.is_empty());
}

#[test]
fn unknown_code_is_room_not_found() {
    let registry: RoomRegistry<&str> = RoomRegistry::new();
    assert_eq!(registry.get_id_by_code(&RoomCode("ABCDEF".to_string())), None);
    assert_eq!(registry.route_target_by_code(&RoomCode("ABCDEF".to_string())).err(), Some("room_not_found".to_string()));
    assert_eq!(registry.route_target(RoomId(3)).err(), Some("room_not_found".to_string()));
    // Not a code at all.
    assert_eq!(registry.get_id_by_code(&RoomCode("abc".to_string())), None);
}

#[test]
fn removed_room_is_unreachable() {
    let mut registry: RoomRegistry<u8> = RoomRegistry::new();
    let id = RoomId(42);
    registry.register(id, 1);
    registry.register(RoomId(43), 2);
    registry.remove(id);
    assert_eq!(registry.get_id_by_code(&id.to_room_code()), None);
    assert!(registry.route_target(id).is_err());
    assert_eq!(registry.len(), 1);
    assert_eq!(registry.get_id_by_code(&RoomId(43).to_room_code()), Some(RoomId(43)));
}

#[test]
fn join_code_is_four_digits() {
    assert_eq!(join_code_from(7), "0007");
    assert_eq!(join_code_from(12345), "2345");
    assert_eq!(join_code_from(65535), "5535");
    assert_eq!(join_code_from(999), "0999");
}

#[test]
fn host_token_has_prefix() {
    assert_eq!(host_token_from(0), "host_tok_0");
    assert_eq!(host_token_from(18446744073709551615), "host_tok_18446744073709551615");
}

#[test]
fn new_room_identity_is_consistent() {
    let (id, code, join_code, host_token) = new_room_identity();
    assert_eq!(code, id.to_room_code());
    assert_eq!(join_code.len(), 4);
    assert!(join_code.chars().all(|c| c.is_ascii_digit()));
    assert!(host_token.starts_with("host_tok_"));
}
