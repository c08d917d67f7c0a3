use wintab_lite::{Bitmask, CString40, FIX32, HCTX, HWND};

#[test]
fn test_cstring40() {
    let mut buffer: [u8; 40] = [0; 40];

    let cstring = CString40::from_bytes(buffer.clone());
    assert_eq!(cstring.len(), 0);

    let string_to_be_inserted = "12345";
    string_to_be_inserted.as_bytes().iter().enumerate().for_each(|(i, byte)| {
        buffer[i] = *byte;
    });

    let cstring = CString40::from_bytes(buffer);
    assert_eq!(cstring.len(), 5);
    assert_eq!(cstring.read(), "12345");
    assert_eq!(cstring.len(), 5);
}

#[test]
fn fix32_parts_are_the_two_words() {
    let raws: [u32; 8] = [0, 1, 0xFFFF, 0x1_0000, 0x1_8000, 0x1234_5678, 0x8000_0000, 0xFFFF_FFFF];
    for r in raws {
        let fixed = FIX32::new(r);
        assert_eq!(fixed.raw(), r);
        assert_eq!(fixed.int_part(), r >> 16);
        assert_eq!(fixed.frac_part(), r & 0xFFFF);
        assert_eq!(fixed.int_part() * 65536 + fixed.frac_part(), r);
    }
}

#[test]
fn fix32_parts_of_one_and_a_half() {
    let fixed = FIX32::new(0x0001_8000);
    assert_eq!(fixed.int_part(), 1);
    assert_eq!(fixed.frac_part(), 0x8000);
}

#[test]
fn fix32_default_is_zero() {
    assert_eq!(FIX32::default().raw(), 0);
    assert_eq!(FIX32::default(), FIX32::new(0));
}

#[test]
fn fix32_from_scaled_saturates() {
    assert_eq!(FIX32::from_scaled(0).raw(), 0);
    assert_eq!(FIX32::from_scaled(-1).raw(), 0);
    assert_eq!(FIX32::from_scaled(i64::MIN).raw(), 0);
    assert_eq!(FIX32::from_scaled(98304).raw(), 98304);
    assert_eq!(FIX32::from_scaled(0xFFFF_FFFF).raw(), 0xFFFF_FFFF);
    assert_eq!(FIX32::from_scaled(0x1_0000_0000).raw(), 0xFFFF_FFFF);
    assert_eq!(FIX32::from_scaled(i64::MAX).raw(), 0xFFFF_FFFF);
}

#[test]
fn fix32_to_scaled_is_the_raw_value() {
    assert_eq!(FIX32::new(0).to_scaled(), 0);
    assert_eq!(FIX32::new(0x1_8000).to_scaled(), 98304);
    assert_eq!(FIX32::new(0xFFFF_FFFF).to_scaled(), 4294967295);
}

#[test]
fn fix32_float_round_trip_is_within_one() {
    let raws: [u32; 9] =
        [0, 1, 2, 0xFFFF, 0x1_0000, 0x1_8000, 0x1234_5678, 0x8000_0001, 0xFFFF_FFFF];
    for r in raws {
        let as_float: f64 = FIX32::new(r).to_scaled() as f64 / 65536.0;
        let back = FIX32::from_scaled((as_float * 65536.0).round() as i64);
        let difference = (back.raw() as i64 - r as i64).abs();
        assert!(difference <= 1);
    }
}

#[test]
fn fix32_float_values() {
    let one_and_a_half: f64 = FIX32::new(0x0001_8000).to_scaled() as f64 / 65536.0;
    assert_eq!(one_and_a_half, 1.5);
    assert_eq!(FIX32::from_scaled((2.25f64 * 65536.0).round() as i64).raw(), 0x0002_4000);
    assert_eq!(FIX32::from_scaled((-3.0f64 * 65536.0).round() as i64).raw(), 0);
    assert_eq!(FIX32::from_scaled((70000.0f64 * 65536.0).round() as i64).raw(), 0xFFFF_FFFF);
}

#[test]
fn cstring40_truncates_a_long_text() {
    let source = "abcdefghijklmnopqrstuvwxyzABCDEFGHIJKLMNOPQRSTUVWX";
    assert_eq!(source.chars().count(), 50);
    let mut text = CString40::default();
    text.write_str(source);
    assert_eq!(text.len(), 39);
    assert!(text.read().len() <= 39);
    assert_eq!(text.read(), "abcdefghijklmnopqrstuvwxyzABCDEFGHIJKLM");
    assert_eq!(text.as_bytes()[39], 0);
}

#[test]
fn cstring40_empty_text() {
    let mut text = CString40::default();
    text.write_str("something");
    text.write_str("");
    assert_eq!(text.read(), "");
    assert!(text.is_empty());
    assert_eq!(text.as_bytes(), [0u8; 40]);
}

#[test]
fn cstring40_default_is_empty() {
    let text = CString40::default();
    assert_eq!(text.read(), "");
    assert_eq!(text.len(), 0);
    assert_eq!(text.as_bytes(), [0u8; 40]);
}

#[test]
fn cstring40_write_pads_with_zeros() {
    let mut text = CString40::default();
    text.write_str("a much longer text than the next one");
    text.write_str("Pen");
    let bytes = text.as_bytes();
    assert_eq!(&bytes[..3], b"Pen");
    assert!(bytes[3..].iter().all(|b| *b == 0));
    assert_eq!(text.read(), "Pen");
    assert_eq!(text.len(), 3);
}

#[test]
fn cstring40_exactly_39_characters_fit() {
    let source = "123456789012345678901234567890123456789";
    assert_eq!(source.len(), 39);
    let mut text = CString40::default();
    text.write_str(source);
    assert_eq!(text.read(), source);
    let forty = "1234567890123456789012345678901234567890";
    text.write_str(forty);
    assert_eq!(text.read(), source);
    assert_eq!(text.as_bytes()[39], 0);
}

#[test]
fn cstring40_replaces_what_is_not_ascii() {
    let mut text = CString40::default();
    text.write_str("a\u{e9}b\u{141}c\u{1F600}d");
    assert_eq!(text.read(), "a b c d");
    assert_eq!(text.len(), 7);
}

#[test]
fn cstring40_stops_at_a_zero_character() {
    let mut text = CString40::default();
    text.write_str("ab\0cd");
    assert_eq!(text.read(), "ab");
    assert_eq!(&text.as_bytes()[..5], b"ab\0cd");
}

#[test]
fn cstring40_without_terminator_shows_nothing() {
    let text = CString40::from_bytes([b'x'; 40]);
    assert_eq!(text.len(), 0);
    assert_eq!(text.read(), "");
    assert!(text.is_empty());
}

#[test]
fn cstring40_reads_bytes_as_characters() {
    let mut buffer = [0u8; 40];
    buffer[0] = b'T';
    buffer[1] = 0xE9;
    buffer[2] = b'!';
    let text = CString40::from_bytes(buffer);
    assert_eq!(text.read(), "T\u{e9}!");
    assert_eq!(text.len(), 3);
}

#[test]
fn cstring40_bytes_go_out_and_in() {
    let mut text = CString40::default();
    text.write_str("Wacom Tablet");
    let mut out: Vec<u8> = vec![7, 7];
    text.write_to(&mut out);
    assert_eq!(out.len(), 42);
    assert_eq!(&out[2..14], b"Wacom Tablet");
    let back = CString40::read_at(&out, 2);
    assert_eq!(back, text);
}

#[test]
fn bitmask_shows_its_bits() {
    assert_eq!(Bitmask(0u32).to_binary_string(), "00000000000000000000000000000000");
    assert_eq!(Bitmask(5u32).to_binary_string(), "00000000000000000000000000000101");
    assert_eq!(Bitmask(0x8000_0001u32).to_binary_string(), "10000000000000000000000000000001");
    assert_eq!(Bitmask(u32::MAX).to_binary_string(), "11111111111111111111111111111111");
    assert_eq!(Bitmask(5u32).to_binary_string(), format!("{:032b}", 5u32));
}

#[test]
fn bitmask_debug_string_has_a_prefix() {
    assert_eq!(Bitmask(6u32).to_debug_string(), "0b00000000000000000000000000000110");
    assert_eq!(Bitmask(0xDEAD_BEEFu32).to_debug_string(), format!("0b{:032b}", 0xDEAD_BEEFu32));
}

#[test]
fn bitmask_default_and_deref() {
    let mask: Bitmask<u32> = Bitmask::default();
    assert_eq!(mask.0, 0);
    assert_eq!(*mask, 0);
    let other = Bitmask(9u32);
    assert_eq!(*other, 9);
    assert_eq!(other, Bitmask(9u32));
}

#[test]
fn handles_hold_their_numbers() {
    let window = HWND::new(-5);
    assert_eq!(window.raw(), -5);
    let context = HCTX::new(0x1234);
    assert_eq!(context.raw(), 0x1234);
    assert!(!context.is_null());
    assert!(HCTX::null().is_null());
    assert!(HCTX::default().is_null());
    assert_eq!(HCTX::null().raw(), 0);
}

#[test]
fn bitmask_of_other_widths() {
    assert_eq!(Bitmask(5u8).to_binary_string(), "00000101");
    assert_eq!(Bitmask(0x80u8).to_debug_string(), "0b10000000");
    assert_eq!(Bitmask(0x8001u16).to_binary_string(), "1000000000000001");
    assert_eq!(Bitmask(1u16).to_debug_string(), "0b0000000000000001");
    assert_eq!(Bitmask(u64::MAX).to_binary_string(), format!("{:064b}", u64::MAX));
    assert_eq!(Bitmask(1u64 << 63).to_binary_string(), format!("{:064b}", 1u64 << 63));
    assert_eq!(Bitmask(0x0123_4567_89AB_CDEFu64).to_debug_string().len(), 66);
    assert_eq!(
        Bitmask(0x0123_4567_89AB_CDEFu64).to_debug_string(),
        format!("0b{:064b}", 0x0123_4567_89AB_CDEFu64)
    );
}
