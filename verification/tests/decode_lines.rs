use slcanx::decode::{parse_frame_content, parse_line, parse_payload, Line, ParseError};
use slcanx::encode::serialize_frame;
use slcanx::frame::CanFrame;

fn frame_of(line: &str) -> (u8, CanFrame) {
    match parse_line(line.as_bytes()) {
        Line::Frame(ch, frame) => (ch, frame),
        other => panic!("no frame: {:?}", other),
    }
}

fn same(a: &CanFrame, b: &CanFrame) -> bool {
    a.id == b.id && a.data == b.data && a.ext == b.ext && a.rtr == b.rtr && a.fd == b.fd
        && a.brs == b.brs
}

#[test]
fn extended_frame_survives_encode_and_decode() {
    let frame = CanFrame::new_ext(0x1ABCDEF0, &[0x11, 0x22, 0x33, 0x44]);
    let mut buf = Vec::new();
    serialize_frame(0, &frame, &mut buf);
    assert_eq!(buf.pop(), Some(b'\r'));
    let (ch, back) = frame_of(std::str::from_utf8(&buf).unwrap());
    assert_eq!(ch, 0);
    assert!(same(&frame, &back));
    assert!(back.ext && !back.fd && !back.rtr && !back.brs);
    assert_eq!(back.id, 0x1ABCDEF0);
    assert_eq!(back.data, vec![0x11, 0x22, 0x33, 0x44]);
}

#[test]
fn standard_remote_frame_decodes_with_empty_payload() {
    let (ch, frame) = frame_of("0r1230");
    assert_eq!(ch, 0);
    assert_eq!(frame.id, 0x123);
    assert!(frame.rtr);
    assert!(!frame.ext && !frame.fd && !frame.brs);
    assert!(frame.data.is_empty());
}

#[test]
fn remote_frame_ignores_text_behind_the_code() {
    let (_, frame) = frame_of("1r1232AABB");
    assert!(frame.rtr);
    assert!(frame.data.is_empty());
}

#[test]
fn every_valid_frame_kind_survives_on_every_channel() {
    let lens = [0usize, 1, 8, 12, 16, 20, 24, 32, 48, 64];
    for ch in 0u8..=3 {
        for &len in lens.iter() {
            let data: Vec<u8> = (0..len).map(|i| (i * 7 + 3) as u8).collect();
            for kind in 0..6 {
                let mut frame = match kind {
                    0 => CanFrame::new_std(0x7FF, &data),
                    1 => CanFrame::new_ext(0x1FFFFFFF, &data),
                    2 => CanFrame::new_fd(0x001, &data, false),
                    3 => CanFrame::new_fd(0x002, &data, true),
                    4 => CanFrame::new_fd(0x12345678, &data, false),
                    _ => CanFrame::new_fd(0x0ABCDEF1, &data, true),
                };
                if kind >= 4 {
                    frame.ext = true;
                }
                let mut buf = Vec::new();
                serialize_frame(ch, &frame, &mut buf);
                assert_eq!(buf.pop(), Some(b'\r'));
                match parse_line(&buf) {
                    Line::Frame(c, back) => {
                        assert_eq!(c, ch);
                        assert!(same(&frame, &back));
                    },
                    other => panic!("no frame: {:?}", other),
                }
            }
        }
    }
}

#[test]
fn channel_digit_is_taken_off() {
    assert_eq!(frame_of("3t0011AB").0, 3);
    assert_eq!(frame_of("2t0011AB").0, 2);
    assert_eq!(frame_of("0t0011AB").0, 0);
}

#[test]
fn missing_channel_digit_means_channel_zero() {
    let (ch, frame) = frame_of("t1230");
    assert_eq!(ch, 0);
    assert_eq!(frame.id, 0x123);
    let (ch, frame) = frame_of("T1ABCDEF02BEEF");
    assert_eq!(ch, 0);
    assert_eq!(frame.id, 0x1ABCDEF0);
    assert_eq!(frame.data, vec![0xBE, 0xEF]);
}

#[test]
fn digit_above_three_is_no_channel() {
    assert!(matches!(parse_line(b"4t1230"), Line::Unknown(0)));
    assert!(matches!(parse_line(b"9"), Line::Unknown(0)));
}

#[test]
fn the_letter_gives_the_flags() {
    let flags = |line: &str| {
        let (_, f) = frame_of(line);
        (f.ext, f.rtr, f.fd, f.brs)
    };
    assert_eq!(flags("0t0010"), (false, false, false, false));
    assert_eq!(flags("0T000000010"), (true, false, false, false));
    assert_eq!(flags("0r0010"), (false, true, false, false));
    assert_eq!(flags("0R000000010"), (true, true, false, false));
    assert_eq!(flags("0d0010"), (false, false, true, false));
    assert_eq!(flags("0D000000010"), (true, false, true, false));
    assert_eq!(flags("0b0010"), (false, false, true, true));
    assert_eq!(flags("0B000000010"), (true, false, true, true));
}

#[test]
fn lower_case_digits_are_read() {
    let (_, frame) = frame_of("0t7ff2abcd");
    assert_eq!(frame.id, 0x7FF);
    assert_eq!(frame.data, vec![0xAB, 0xCD]);
    let (_, frame) = frame_of("0d123f");
    assert_eq!(frame.id, 0x123);
    assert!(frame.data.is_empty());
}

#[test]
fn payload_ends_where_the_code_says() {
    let (_, frame) = frame_of("0t1232AABBCCDD");
    assert_eq!(frame.data, vec![0xAA, 0xBB]);
    let (_, frame) = frame_of("0d1239000102030405060708090A0B0C0D");
    assert_eq!(frame.data, vec![0, 1, 2, 3, 4, 5, 6, 7, 8, 9, 10, 11]);
}

#[test]
fn short_payload_gives_the_bytes_that_are_whole() {
    let (_, frame) = frame_of("0t1234AABBC");
    assert_eq!(frame.data, vec![0xAA, 0xBB]);
    let (_, frame) = frame_of("0t1238");
    assert!(frame.data.is_empty());
    let (_, frame) = frame_of("0t1230A");
    assert!(frame.data.is_empty());
}

#[test]
fn pair_that_is_not_hexadecimal_gives_no_byte() {
    let (_, frame) = frame_of("0t1233AAZZCC");
    assert_eq!(frame.data, vec![0xAA, 0xCC]);
    let (_, frame) = frame_of("0t1232+A11");
    assert_eq!(frame.data, vec![0x11]);
    let (_, frame) = frame_of("0t1232A-11");
    assert_eq!(frame.data, vec![0x11]);
}

#[test]
fn too_short_line_is_malformed() {
    assert!(matches!(parse_line(b"0t"), Line::Malformed(0, ParseError::TooShort)));
    assert!(matches!(parse_line(b"0t123"), Line::Malformed(0, ParseError::TooShort)));
    assert!(matches!(parse_line(b"1T1234567"), Line::Malformed(1, ParseError::TooShort)));
    assert!(matches!(parse_line(b"1T12345678"), Line::Malformed(1, ParseError::TooShort)));
    assert!(matches!(parse_line(b"tZZ"), Line::Malformed(0, ParseError::TooShort)));
}

#[test]
fn identifier_that_is_not_hexadecimal_is_malformed() {
    assert!(matches!(parse_line(b"0t12G0"), Line::Malformed(0, ParseError::InvalidId)));
    assert!(matches!(parse_line(b"0t+120"), Line::Malformed(0, ParseError::InvalidId)));
    assert!(matches!(parse_line(b"0t 120"), Line::Malformed(0, ParseError::InvalidId)));
    assert!(matches!(parse_line(b"2T1234567X0"), Line::Malformed(2, ParseError::InvalidId)));
    assert!(matches!(parse_line(b"0tZZZZ"), Line::Malformed(0, ParseError::InvalidId)));
}

#[test]
fn code_that_is_not_hexadecimal_is_malformed() {
    assert!(matches!(parse_line(b"0t123G"), Line::Malformed(0, ParseError::InvalidDlc)));
    assert!(matches!(parse_line(b"3T12345678-"), Line::Malformed(3, ParseError::InvalidDlc)));
}

#[test]
fn error_and_other_responses() {
    assert!(matches!(parse_line(b"0E12"), Line::DeviceError(0)));
    assert!(matches!(parse_line(b"2E"), Line::DeviceError(2)));
    assert!(matches!(parse_line(b"E"), Line::DeviceError(0)));
    assert!(matches!(parse_line(b"1z"), Line::Unknown(1)));
    assert!(matches!(parse_line(b"V1013"), Line::Unknown(0)));
    assert!(matches!(parse_line(b"\x07"), Line::Unknown(0)));
    assert!(matches!(parse_line(&[0xFF, 0xFE]), Line::Unknown(0)));
}

#[test]
fn empty_line_and_bare_channel_digit() {
    assert!(matches!(parse_line(b""), Line::Empty));
    assert!(matches!(parse_line(b"0"), Line::Empty));
    assert!(matches!(parse_line(b"3"), Line::Empty));
}

#[test]
fn frame_content_by_letter() {
    let frame = parse_frame_content(b'b', b"7FF2CAFE").unwrap();
    assert_eq!(frame.id, 0x7FF);
    assert!(frame.fd && frame.brs && !frame.ext && !frame.rtr);
    assert_eq!(frame.data, vec![0xCA, 0xFE]);
    assert_eq!(parse_frame_content(b't', b"12").unwrap_err(), ParseError::TooShort);
    assert_eq!(parse_frame_content(b'T', b"12340000G").unwrap_err(), ParseError::InvalidDlc);
    assert_eq!(parse_frame_content(b'T', b"1234000G0").unwrap_err(), ParseError::InvalidId);
    assert!(parse_frame_content(b'T', b"123400000").is_ok());
}

#[test]
fn payload_reader() {
    assert_eq!(parse_payload(b"0102030", 8), vec![1, 2, 3]);
    assert_eq!(parse_payload(b"01020304", 2), vec![1, 2]);
    assert_eq!(parse_payload(b"", 8), Vec::<u8>::new());
    assert_eq!(parse_payload(b"xx02", 2), vec![2]);
    assert_eq!(parse_payload(b"FFff", 0), Vec::<u8>::new());
}
