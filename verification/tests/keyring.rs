use controller::comm::keyring::{Keyring, KeyringError};
use controller::protocol::{KeyId, DEFAULT_KEY_ID};

fn key(i: u8) -> KeyId {
    KeyId::new(i).unwrap()
}

#[test]
fn default_keyring_starts_with_default_key_and_zero_counters() {
    let kr = Keyring::new();
    assert_eq!(kr.active().as_u8(), DEFAULT_KEY_ID);
    assert_eq!(kr.peek_counter(KeyId::default()), 0);
}

#[test]
fn next_seq_is_monotonic_and_starts_at_one() {
    let mut kr = Keyring::new();
    assert_eq!(kr.next_seq(), 1);
    assert_eq!(kr.next_seq(), 2);
    assert_eq!(kr.next_seq(), 3);
    assert_eq!(kr.peek_counter(KeyId::default()), 3);
}

#[test]
fn rotate_to_valid_slot_updates_active() {
    let mut kr = Keyring::new();
    let key1 = key(1);
    kr.rotate_to(key1).expect("slot 1 is enabled in default config");
    assert_eq!(kr.active().as_u8(), 1);
}

#[test]
fn rotate_to_disabled_slot_returns_err() {
    let mut kr = Keyring::new();
    let key2 = key(2);
    assert_eq!(kr.rotate_to(key2), Err(KeyringError::SlotDisabled(2)));
    assert_eq!(kr.active().as_u8(), DEFAULT_KEY_ID);
}

#[test]
fn next_seq_skips_reserved_zero_on_wrap() {
    let mut kr = Keyring::new();
    kr.force_counter_for_test(KeyId::default(), u32::MAX);
    assert_eq!(kr.next_seq(), 1);
    assert_eq!(kr.next_seq(), 2);
}

#[test]
fn per_slot_seq_spaces_are_independent() {
    let mut kr = Keyring::new();
    assert_eq!(kr.next_seq(), 1);
    assert_eq!(kr.next_seq(), 2);
    assert_eq!(kr.next_seq(), 3);
    let key1 = key(1);
    kr.rotate_to(key1).unwrap();
    assert_eq!(kr.next_seq(), 1);
    kr.rotate_to(KeyId::default()).unwrap();
    assert_eq!(kr.next_seq(), 4);
}

#[test]
fn rotate_to_slot_past_the_last_is_out_of_range() {
    let mut kr = Keyring::new();
    assert_eq!(kr.rotate_to(key(4)), Err(KeyringError::SlotOutOfRange(4)));
    assert_eq!(kr.active().as_u8(), DEFAULT_KEY_ID);
}

#[test]
fn unknown_slots_hand_out_no_numbers() {
    let mut kr = Keyring::new();
    assert_eq!(kr.next_seq_for(key(9)), 0);
    assert_eq!(kr.peek_counter(key(9)), 0);
    assert_eq!(kr.next_seq_for(key(3)), 1);
    assert_eq!(kr.next_seq_for(key(3)), 2);
    assert_eq!(kr.peek_counter(KeyId::default()), 0);
}

#[test]
fn raw_key_ids_past_the_wire_field_are_refused() {
    assert!(KeyId::new(15).is_ok());
    assert!(KeyId::new(16).is_err());
}
