use controller::bits::{bit_is_set, count_ones};
use controller::text::{
    align_left, align_right, decimal_text, push_decimal, push_hex_byte, push_integer, push_lower_hex,
    push_upper_hex, readable_text, same_text, signed_text, signed_zero_filled_text, valid_text,
    zero_filled_text,
};
use controller::time::{Duration, Instant};

#[test]
fn numbers_print_as_the_standard_formatter_does() {
    for n in [0u64, 1, 9, 10, 99, 100, 4095, 65535, 4294967295, u64::MAX] {
        assert_eq!(decimal_text(n), format!("{n}"));
        assert_eq!(zero_filled_text(n, 4), format!("{n:04}"));
        let mut s = String::from("x");
        push_decimal(&mut s, n);
        assert_eq!(s, format!("x{n}"));
    }
    for n in [0i32, 1, -1, 7, -7, 1000, -1000, i32::MAX, i32::MIN] {
        assert_eq!(signed_text(n), format!("{n:+}"));
        assert_eq!(signed_zero_filled_text(n, 5), format!("{n:+05}"));
        let mut s = String::new();
        push_integer(&mut s, n);
        assert_eq!(s, format!("{n}"));
    }
}

#[test]
fn hexadecimal_prints_as_the_standard_formatter_does() {
    for n in [0u32, 0xAB, 0xABCD, 0xDEAD_BEEF, u32::MAX] {
        let mut s = String::new();
        push_upper_hex(&mut s, n, 8);
        assert_eq!(s, format!("{n:08X}"));
        let mut s = String::new();
        push_lower_hex(&mut s, n, 8);
        assert_eq!(s, format!("{n:08x}"));
    }
    for b in 0..=255u8 {
        let mut s = String::new();
        push_hex_byte(&mut s, b);
        assert_eq!(s, format!("{b:02x}"));
    }
}

#[test]
fn columns_align_by_characters() {
    for s in ["", "a", "ab", "─", "手柄", "abcdefgh"] {
        assert_eq!(align_left(s, 5), format!("{s:<5}"));
        assert_eq!(align_right(s, 5), format!("{s:>5}"));
    }
}

#[test]
fn bytes_become_text_only_if_valid() {
    assert_eq!(readable_text(b"led"), "led");
    assert_eq!(readable_text(&[0xFF]), "???");
    assert_eq!(valid_text("手".as_bytes()), Some("手"));
    assert_eq!(valid_text(&[0xE6, 0x89]), None);
    assert!(same_text("a", "a") && !same_text("a", "b"));
}

#[test]
fn masks_are_sets_of_bits() {
    assert!(bit_is_set(0b100, 2) && !bit_is_set(0b100, 1));
    assert!(!bit_is_set(u32::MAX, 32) && !bit_is_set(u32::MAX, 255));
    for m in [0u32, 1, 0xF0F0, u32::MAX] {
        assert_eq!(count_ones(m), m.count_ones());
    }
}

#[test]
fn time_is_counted_in_ticks() {
    assert_eq!(Duration::from_millis(5).ticks, 5_000);
    assert_eq!(Instant::from_millis(7).as_millis(), 7);
    let (a, b) = (Instant::from_ticks(10), Instant::from_ticks(25));
    assert_eq!(b.duration_since(a), Duration::from_ticks(15));
    assert_eq!(a.checked_duration_since(b), None);
    assert_eq!(Duration::from_ticks(1_999).as_millis(), 1);
}
