use chmac::hex::{hex_digit, hex_digit_text};
use chmac::mac::{clear_multicast_bit, to_signed, to_unsigned, Invalid, Mac};
use chmac::text::chars_of;

fn stored(octets: [u8; 6]) -> [i8; 14] {
    let mut bytes = [0i8; 14];
    for (i, o) in octets.iter().enumerate() {
        bytes[i] = *o as i8;
    }
    bytes
}

#[test]
fn parse_reads_lowercase_text() {
    let mac = Mac::parse("aa:bb:cc:dd:ee:ff").unwrap();
    assert_eq!(mac.bytes(), [-86, -69, -52, -35, -18, -1, 0, 0, 0, 0, 0, 0, 0, 0]);
}

#[test]
fn parse_reads_uppercase_and_mixed_text() {
    let upper = Mac::parse("AA:BB:CC:DD:EE:FF").unwrap();
    assert_eq!(upper.bytes(), stored([0xaa, 0xbb, 0xcc, 0xdd, 0xee, 0xff]));
    let mixed = Mac::parse("0a:B1:c2:D3:e4:F5").unwrap();
    assert_eq!(mixed.bytes(), stored([0x0a, 0xb1, 0xc2, 0xd3, 0xe4, 0xf5]));
}

#[test]
fn format_of_parse_is_the_lowercase_text() {
    let texts = [
        "00:00:00:00:00:00",
        "02:00:5e:10:00:01",
        "fe:ff:ff:ff:ff:ff",
        "AA:BB:CC:DD:EE:FF",
        "0A:1b:2C:3d:4E:5f",
        "7e:80:7F:81:00:FF",
    ];
    for text in texts {
        let mac = Mac::parse(text).unwrap();
        assert_eq!(mac.format(), text.to_lowercase());
    }
}

#[test]
fn parse_of_format_is_the_address() {
    for first in (0u8..=254).step_by(2) {
        let mac = Mac::from_raw_bytes(stored([first, 0x01, 0x7f, 0x80, 0xfe, 0xff]));
        let back = Mac::parse(&mac.format()).unwrap();
        assert_eq!(back.bytes(), mac.bytes());
    }
}

#[test]
fn format_writes_two_lowercase_digits_per_octet() {
    let mac = Mac::from_raw_bytes(stored([0x00, 0x0f, 0xa0, 0x7f, 0x80, 0xff]));
    assert_eq!(mac.format(), "00:0f:a0:7f:80:ff");
}

#[test]
fn format_leaves_the_padding_out() {
    let mut bytes = [0x11i8; 14];
    bytes[0] = -1;
    let mac = Mac::from_raw_bytes(bytes);
    assert_eq!(mac.format(), "ff:11:11:11:11:11");
    assert_eq!(mac.format().len(), 17);
}

#[test]
fn parse_refuses_a_wrong_number_of_colons() {
    let texts = [
        "",
        "aabbccddeeff",
        "aa:bb:cc:dd:ee",
        "aa:bb:cc:dd:ee:ff:00",
        "aa-bb-cc-dd-ee-ff",
        "::::",
        "::::::",
        "gg",
    ];
    for text in texts {
        match Mac::parse(text) {
            Err(Invalid::MismatchAddrSize(held)) => assert_eq!(held, text),
            other => panic!("{text:?} gave {other:?}"),
        }
    }
}

#[test]
fn parse_refuses_the_multicast_bit() {
    match Mac::parse("01:22:33:44:55:66") {
        Err(Invalid::MultiCastBitSet(index, byte, bytes, text)) => {
            assert_eq!(index, 0);
            assert_eq!(byte, 1);
            assert_eq!(bytes, stored([0x01, 0x22, 0x33, 0x44, 0x55, 0x66]));
            assert_eq!(text, "01:22:33:44:55:66");
        },
        other => panic!("{other:?}"),
    }
}

#[test]
fn parse_refuses_every_odd_first_octet() {
    for first in (1u16..=255).step_by(2) {
        let text = format!("{first:02x}:00:00:00:00:00");
        match Mac::parse(&text) {
            Err(Invalid::MultiCastBitSet(0, byte, _, held)) => {
                assert_eq!(byte as u8 as u16, first);
                assert_eq!(held, text);
            },
            other => panic!("{text:?} gave {other:?}"),
        }
    }
}

#[test]
fn parse_accepts_an_odd_octet_behind_the_first() {
    let mac = Mac::parse("02:01:03:05:07:ff").unwrap();
    assert_eq!(mac.bytes(), stored([0x02, 0x01, 0x03, 0x05, 0x07, 0xff]));
}

#[test]
fn parse_names_the_field_that_is_not_hexadecimal() {
    match Mac::parse("gg:22:33:44:55:66") {
        Err(Invalid::WrongHexValue(index, field, text)) => {
            assert_eq!(index, 0);
            assert_eq!(field, "gg");
            assert_eq!(text, "gg:22:33:44:55:66");
        },
        other => panic!("{other:?}"),
    }
}

#[test]
fn parse_names_the_first_bad_field() {
    let cases = [
        ("00:11:22:zz:44:yy", 3, "zz"),
        ("00:11:22:33:44:5g", 5, "5g"),
        ("00:11:22:33:44:", 5, ""),
        (":11:22:33:44:55", 0, ""),
        ("00:1:22:33:44:55", 1, "1"),
        ("00:11:222:33:44:55", 2, "222"),
        ("00:11:22:+3:44:55", 3, "+3"),
        ("00:11:22:33: 4:55", 4, " 4"),
        ("00:11:22:33:44:5\u{e9}", 5, "5\u{e9}"),
        ("\u{1f600}0:11:22:33:44:55", 0, "\u{1f600}0"),
        (":::::", 0, ""),
    ];
    for (text, at, held) in cases {
        match Mac::parse(text) {
            Err(Invalid::WrongHexValue(index, field, whole)) => {
                assert_eq!(index, at, "{text:?}");
                assert_eq!(field, held, "{text:?}");
                assert_eq!(whole, text);
            },
            other => panic!("{text:?} gave {other:?}"),
        }
    }
}

#[test]
fn parse_looks_at_the_fields_before_the_multicast_bit() {
    match Mac::parse("01:22:33:44:55:6x") {
        Err(Invalid::WrongHexValue(5, field, _)) => assert_eq!(field, "6x"),
        other => panic!("{other:?}"),
    }
}

#[test]
fn try_from_reads_as_parse_does() {
    let mac = Mac::try_from("02:42:ac:11:00:02").unwrap();
    assert_eq!(mac.bytes(), stored([0x02, 0x42, 0xac, 0x11, 0x00, 0x02]));
    assert!(matches!(Mac::try_from("02:42:ac:11:00"), Err(Invalid::MismatchAddrSize(_))));
    assert!(matches!(Mac::try_from("03:42:ac:11:00:02"), Err(Invalid::MultiCastBitSet(0, 3, _, _))));
    assert!(matches!(Mac::try_from("02:4_:ac:11:00:02"), Err(Invalid::WrongHexValue(1, _, _))));
}

#[test]
fn rand_gives_unicast_addresses() {
    for _ in 0..10_000 {
        let mac = Mac::rand();
        let bytes = mac.bytes();
        assert_eq!(bytes[0] & 1, 0);
        assert_eq!(&bytes[6..], &[0i8; 8]);
    }
}

#[test]
fn rand_gives_more_than_one_address() {
    let first = Mac::rand().bytes();
    assert!((0..64).any(|_| Mac::rand().bytes() != first));
}

#[test]
fn unicast_from_clears_only_the_lowest_bit_of_the_first_octet() {
    assert_eq!(Mac::unicast_from([1, 3, 5, 7, 9, 11]).bytes(), stored([0, 3, 5, 7, 9, 11]));
    assert_eq!(
        Mac::unicast_from([-1, -1, -1, -1, -1, -1]).bytes(),
        stored([0xfe, 0xff, 0xff, 0xff, 0xff, 0xff]),
    );
    assert_eq!(
        Mac::unicast_from([-128, 1, 2, 3, 4, 5]).bytes(),
        stored([0x80, 1, 2, 3, 4, 5]),
    );
    assert_eq!(
        Mac::unicast_from([-127, 1, 2, 3, 4, 5]).bytes(),
        stored([0x80, 1, 2, 3, 4, 5]),
    );
    assert_eq!(Mac::unicast_from([127, 0, 0, 0, 0, 0]).bytes(), stored([0x7e, 0, 0, 0, 0, 0]));
}

#[test]
fn clear_multicast_bit_changes_a_byte_by_one_at_most() {
    for b in i8::MIN..=i8::MAX {
        let r = clear_multicast_bit(b);
        assert_eq!(r as u8, (b as u8) & 0xfe);
        assert!(r == b || r as i16 == b as i16 - 1);
    }
    assert_eq!(clear_multicast_bit(-1), -2);
    assert_eq!(clear_multicast_bit(77), 76);
    assert_eq!(clear_multicast_bit(-128), -128);
}

#[test]
fn default_is_all_zero() {
    assert_eq!(Mac::default().bytes(), [0i8; 14]);
    assert_eq!(Mac::default().format(), "00:00:00:00:00:00");
}

#[test]
fn from_raw_bytes_keeps_every_byte() {
    let bytes = [1, -2, 3, -4, 5, -6, 7, 8, 9, 10, 11, 12, 13, 14];
    assert_eq!(Mac::from_raw_bytes(bytes).bytes(), bytes);
    assert_eq!(Mac::from_raw_bytes(bytes).format(), "01:fe:03:fc:05:fa");
}

#[test]
fn stored_bytes_and_octets_convert_both_ways() {
    for o in 0u8..=255 {
        assert_eq!(to_signed(o), o as i8);
        assert_eq!(to_unsigned(to_signed(o)), o);
    }
    assert_eq!(to_signed(0x80), -128);
    assert_eq!(to_unsigned(-1), 0xff);
}

#[test]
fn hex_digits_read_and_write() {
    assert_eq!(hex_digit('0'), Some(0));
    assert_eq!(hex_digit('9'), Some(9));
    assert_eq!(hex_digit('a'), Some(10));
    assert_eq!(hex_digit('f'), Some(15));
    assert_eq!(hex_digit('A'), Some(10));
    assert_eq!(hex_digit('F'), Some(15));
    for c in ['g', 'G', '/', ':', '@', '`', ' ', '+', '-', '\u{ff10}'] {
        assert_eq!(hex_digit(c), None, "{c:?}");
    }
    let digits = "0123456789abcdef";
    for n in 0u8..16 {
        assert_eq!(hex_digit_text(n), &digits[n as usize..n as usize + 1]);
        assert_eq!(hex_digit(hex_digit_text(n).chars().next().unwrap()), Some(n));
    }
}

#[test]
fn chars_of_gives_the_characters_in_order() {
    assert_eq!(chars_of(""), Vec::<char>::new());
    assert_eq!(chars_of("a:b"), vec!['a', ':', 'b']);
    assert_eq!(chars_of("\u{e9}\u{1f600}z"), vec!['\u{e9}', '\u{1f600}', 'z']);
}
