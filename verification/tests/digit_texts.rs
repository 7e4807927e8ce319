use slcanx::digits::{hex_digit_of, hex_value_of, parse_hex, push_dec, push_hex};

#[test]
fn hexadecimal_digits() {
    let digits: Vec<u8> = (0u8..16).map(hex_digit_of).collect();
    assert_eq!(digits, b"0123456789ABCDEF".to_vec());
    assert_eq!(hex_digit_of(0x1F), b'F');
    assert_eq!(hex_digit_of(0xA0), b'0');
}

#[test]
fn hexadecimal_digit_values() {
    for (i, c) in b"0123456789ABCDEF".iter().enumerate() {
        assert_eq!(hex_value_of(*c), Some(i as u8));
    }
    for (i, c) in b"abcdef".iter().enumerate() {
        assert_eq!(hex_value_of(*c), Some(10 + i as u8));
    }
    for c in [b'/', b':', b'@', b'G', b'`', b'g', b' ', b'+', b'-', 0u8, 0xFF, b'\r'] {
        assert_eq!(hex_value_of(c), None);
    }
}

#[test]
fn hexadecimal_text_is_padded_to_the_width() {
    let text = |v: u32, w: u8| {
        let mut buf = Vec::new();
        push_hex(&mut buf, v, w);
        String::from_utf8(buf).unwrap()
    };
    assert_eq!(text(0, 3), "000");
    assert_eq!(text(0x123, 3), "123");
    assert_eq!(text(0xABC, 3), "ABC");
    assert_eq!(text(0x1ABCDEF0, 8), "1ABCDEF0");
    assert_eq!(text(0x7, 8), "00000007");
    assert_eq!(text(0xFFFF, 3), "FFFF");
    assert_eq!(text(0, 0), "0");
    assert_eq!(text(0, 1), "0");
    assert_eq!(text(0xF, 1), "F");
    assert_eq!(text(0x10, 1), "10");
    assert_eq!(text(0xA5, 2), "A5");
    assert_eq!(text(u32::MAX, 0), "FFFFFFFF");
    for v in [0u32, 1, 15, 16, 255, 256, 4095, 4096, 0xDEADBEEF] {
        assert_eq!(text(v, 3), format!("{:03X}", v));
        assert_eq!(text(v, 8), format!("{:08X}", v));
        assert_eq!(text(v, 2), format!("{:02X}", v));
        assert_eq!(text(v, 1), format!("{:X}", v));
    }
}

#[test]
fn decimal_text_has_no_leading_zeros() {
    let text = |v: u32| {
        let mut buf = Vec::new();
        push_dec(&mut buf, v);
        String::from_utf8(buf).unwrap()
    };
    for v in [0u32, 1, 3, 9, 10, 99, 100, 255, 1000, 4_294_967_295] {
        assert_eq!(text(v), v.to_string());
    }
}

#[test]
fn hexadecimal_text_is_read_back() {
    assert_eq!(parse_hex(b"123"), Some(0x123));
    assert_eq!(parse_hex(b"1ABCDEF0"), Some(0x1ABCDEF0));
    assert_eq!(parse_hex(b"ffffFFFF"), Some(0xFFFFFFFF));
    assert_eq!(parse_hex(b"000"), Some(0));
    assert_eq!(parse_hex(b""), Some(0));
    assert_eq!(parse_hex(b"12G"), None);
    assert_eq!(parse_hex(b"+12"), None);
    assert_eq!(parse_hex(b"G12"), None);
    assert_eq!(parse_hex(b"1 2"), None);
    assert_eq!(parse_hex(b"0FFFFFFFF"), Some(0xFFFFFFFF));
    assert_eq!(parse_hex(b"100000000"), None);
    assert_eq!(parse_hex(b"FFFFFFFFFFFFFFFFFFFF"), None);
}
