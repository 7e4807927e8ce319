//! Decoder of the line protocol: one line, its terminator taken off, read as
//! a frame on a channel, a device error or some other response.

use crate::digits::{
    hex_number, hex_value, hex_value_of, lemma_hex_number_bound, parse_hex, pow16,
};
use crate::encode::{
    id_width, BRS_EXT, BRS_STD, DATA_EXT, DATA_STD, FD_EXT, FD_STD, REMOTE_EXT, REMOTE_STD,
};
use crate::frame::{dlc_len, dlc_to_len, CanFrame, FrameView};
use vstd::prelude::*;
use vstd::slice::slice_subrange;

verus! {

/// `E`: the device reports an error.
pub const DEVICE_ERROR: u8 = 0x45;

/// Number of logical buses on one serial line.
pub const CHANNELS: u8 = 4;

/// `0`, the digit of the first channel.
pub const FIRST_CHANNEL_DIGIT: u8 = 0x30;

/// `3`, the digit of the last channel.
pub const LAST_CHANNEL_DIGIT: u8 = 0x33;

/// Why the text behind a frame letter is no frame.
#[derive(Debug, Clone, Copy, PartialEq, Eq, Structural)]
pub enum ParseError {
    /// Fewer bytes than the identifier and the data length code take.
    TooShort,
    /// A byte of the identifier is no hexadecimal digit.
    InvalidId,
    /// The data length code is no hexadecimal digit.
    InvalidDlc,
}

/// What one line of the device says.
#[derive(Debug, Clone)]
pub enum Line {
    /// Nothing to go by: the line is empty or holds a channel digit only.
    Empty,
    /// A frame received on a channel.
    Frame(u8, CanFrame),
    /// A frame letter on a channel, followed by text that is no frame.
    Malformed(u8, ParseError),
    /// An error reported by the device for a channel.
    DeviceError(u8),
    /// Any other response on a channel.
    Unknown(u8),
}

/// Mathematical value of a [`Line`].
pub enum LineView {
    Empty,
    Frame(u8, FrameView),
    Malformed(u8, ParseError),
    DeviceError(u8),
    Unknown(u8),
}

impl View for Line {
    type V = LineView;

    open spec fn view(&self) -> LineView {
        match *self {
            Line::Empty => LineView::Empty,
            Line::Frame(ch, frame) => LineView::Frame(ch, frame@),
            Line::Malformed(ch, e) => LineView::Malformed(ch, e),
            Line::DeviceError(ch) => LineView::DeviceError(ch),
            Line::Unknown(ch) => LineView::Unknown(ch),
        }
    }
}

/// One of the eight letters that start a frame.
pub open spec fn is_frame_letter(c: u8) -> bool {
    c == DATA_STD || c == DATA_EXT || c == REMOTE_STD || c == REMOTE_EXT || c == FD_STD || c
        == FD_EXT || c == BRS_STD || c == BRS_EXT
}

/// The letter of a frame with an extended identifier.
pub open spec fn letter_is_ext(c: u8) -> bool {
    c == DATA_EXT || c == REMOTE_EXT || c == FD_EXT || c == BRS_EXT
}

/// The letter of an FD frame.
pub open spec fn letter_is_fd(c: u8) -> bool {
    c == FD_STD || c == FD_EXT || c == BRS_STD || c == BRS_EXT
}

/// The letter of an FD frame with bit rate switching.
pub open spec fn letter_is_brs(c: u8) -> bool {
    c == BRS_STD || c == BRS_EXT
}

/// The letter of a remote frame.
pub open spec fn letter_is_rtr(c: u8) -> bool {
    c == REMOTE_STD || c == REMOTE_EXT
}

/// The byte that the `i`-th pair of a payload text stands for, if both of
/// its bytes are hexadecimal digits.
pub open spec fn payload_pair(text: Seq<u8>, i: int) -> Option<u8> {
    match (hex_value(text[2 * i]), hex_value(text[2 * i + 1])) {
        (Some(high), Some(low)) => Some((16 * high + low) as u8),
        _ => None,
    }
}

/// The bytes that the first `pairs` pairs of a payload text stand for, in
/// order; a pair that holds another byte than a hexadecimal digit gives
/// none.
pub open spec fn read_pairs(text: Seq<u8>, pairs: nat) -> Seq<u8>
    decreases pairs,
{
    if pairs == 0 {
        Seq::empty()
    } else {
        let head = read_pairs(text, (pairs - 1) as nat);
        match payload_pair(text, pairs - 1) {
            Some(b) => head.push(b),
            None => head,
        }
    }
}

/// Number of pairs read from a payload text for a payload of `len` bytes:
/// as many as the length asks for, or as many as the text holds in full,
/// whichever is less.
pub open spec fn pairs_to_read(text_len: nat, len: nat) -> nat {
    if text_len / 2 < len {
        text_len / 2
    } else {
        len
    }
}

/// The payload read from the text behind the data length code, for a
/// payload of `len` bytes. Text beyond twice that length is left unread, as
/// is a last byte without its pair.
pub open spec fn read_payload(text: Seq<u8>, len: nat) -> Seq<u8> {
    read_pairs(text, pairs_to_read(text.len(), len))
}

/// The frame that the text behind a frame letter stands for: an identifier
/// of three or eight hexadecimal digits, one digit of data length code, and
/// for any frame but a remote one the payload.
pub open spec fn decode_frame(letter: u8, content: Seq<u8>) -> Result<FrameView, ParseError> {
    let ext = letter_is_ext(letter);
    let rtr = letter_is_rtr(letter);
    let width = id_width(ext) as int;
    if content.len() < width + 1 {
        Err(ParseError::TooShort)
    } else {
        match hex_number(content.subrange(0, width)) {
            None => Err(ParseError::InvalidId),
            Some(id) => match hex_value(content[width]) {
                None => Err(ParseError::InvalidDlc),
                Some(dlc) => Ok(
                    FrameView {
                        id: id as u32,
                        data: if rtr {
                            Seq::empty()
                        } else {
                            read_payload(
                                content.subrange(width + 1, content.len() as int),
                                dlc_len(dlc),
                            )
                        },
                        ext,
                        rtr,
                        fd: letter_is_fd(letter),
                        brs: letter_is_brs(letter),
                    },
                ),
            },
        }
    }
}

/// Whether a line starts with the digit of a channel.
pub open spec fn has_channel_digit(line: Seq<u8>) -> bool {
    line.len() > 0 && FIRST_CHANNEL_DIGIT <= line[0] <= LAST_CHANNEL_DIGIT
}

/// The channel that a line is for: its leading digit if that is 0 to 3,
/// else channel 0.
pub open spec fn line_channel(line: Seq<u8>) -> u8 {
    if has_channel_digit(line) {
        (line[0] - FIRST_CHANNEL_DIGIT) as u8
    } else {
        0
    }
}

/// What a line says: the channel digit is taken off where there is one, and
/// the byte behind it decides between a frame, a device error and any other
/// response.
pub open spec fn decode_line(line: Seq<u8>) -> LineView {
    let ch = line_channel(line);
    let at: int = if has_channel_digit(line) {
        1
    } else {
        0
    };
    if line.len() <= at {
        LineView::Empty
    } else if is_frame_letter(line[at]) {
        match decode_frame(line[at], line.subrange(at + 1, line.len() as int)) {
            Ok(frame) => LineView::Frame(ch, frame),
            Err(e) => LineView::Malformed(ch, e),
        }
    } else if line[at] == DEVICE_ERROR {
        LineView::DeviceError(ch)
    } else {
        LineView::Unknown(ch)
    }
}

/// Reads the payload of `len` bytes from the text behind the data length
/// code.
pub fn parse_payload(text: &[u8], len: usize) -> (data: Vec<u8>)
    ensures
        data@ == read_payload(text@, len as nat),
{
    let total: usize = text.len();
    let avail: usize = total / 2;
    let pairs: usize = if avail < len {
        avail
    } else {
        len
    };
    let mut data: Vec<u8> = Vec::new();
    let mut i: usize = 0;
    while i < pairs
        invariant
            i <= pairs,
            2 * pairs <= total == text@.len(),
            pairs == pairs_to_read(text@.len(), len as nat),
            data@ == read_pairs(text@, i as nat),
        decreases pairs - i,
    {
        let high: Option<u8> = hex_value_of(text[2 * i]);
        let low: Option<u8> = hex_value_of(text[2 * i + 1]);
        match (high, low) {
            (Some(h), Some(l)) => {
                data.push(h * 16 + l);
            },
            _ => {},
        }
        i = i + 1;
    }
    data
}

/// Reads the text behind a frame letter as a frame. The letter gives the
/// kind of frame and the width of its identifier.
pub fn parse_frame_content(letter: u8, content: &[u8]) -> (parsed: Result<CanFrame, ParseError>)
    ensures
        match parsed {
            Ok(frame) => decode_frame(letter, content@) == Ok::<FrameView, ParseError>(frame@),
            Err(e) => decode_frame(letter, content@) == Err::<FrameView, ParseError>(e),
        },
{
    let ext: bool = letter == DATA_EXT || letter == REMOTE_EXT || letter == FD_EXT || letter
        == BRS_EXT;
    let fd: bool = letter == FD_STD || letter == FD_EXT || letter == BRS_STD || letter == BRS_EXT;
    let brs: bool = letter == BRS_STD || letter == BRS_EXT;
    let rtr: bool = letter == REMOTE_STD || letter == REMOTE_EXT;
    let width: usize = if ext {
        8
    } else {
        3
    };
    if content.len() < width + 1 {
        return Err(ParseError::TooShort);
    }
    let id: u32 = match parse_hex(slice_subrange(content, 0, width)) {
        Some(id) => id,
        None => {
            proof {
                lemma_hex_number_bound(content@.subrange(0, width as int));
                reveal_with_fuel(pow16, 9);
            }
            return Err(ParseError::InvalidId);
        },
    };
    let dlc: u8 = match hex_value_of(content[width]) {
        Some(dlc) => dlc,
        None => {
            return Err(ParseError::InvalidDlc);
        },
    };
    let len: usize = dlc_to_len(dlc);
    let data: Vec<u8> = if rtr {
        Vec::new()
    } else {
        parse_payload(slice_subrange(content, width + 1, content.len()), len)
    };
    Ok(CanFrame { id, data, ext, rtr, fd, brs })
}

/// Reads one line of the device, its terminator taken off.
pub fn parse_line(line: &[u8]) -> (parsed: Line)
    ensures
        parsed@ == decode_line(line@),
{
    if line.len() == 0 {
        return Line::Empty;
    }
    let mut at: usize = 0;
    let mut ch: u8 = 0;
    if FIRST_CHANNEL_DIGIT <= line[0] && line[0] <= LAST_CHANNEL_DIGIT {
        at = 1;
        ch = line[0] - FIRST_CHANNEL_DIGIT;
    }
    if at >= line.len() {
        return Line::Empty;
    }
    let letter: u8 = line[at];
    if letter == DATA_STD || letter == DATA_EXT || letter == REMOTE_STD || letter == REMOTE_EXT
        || letter == FD_STD || letter == FD_EXT || letter == BRS_STD || letter == BRS_EXT {
        match parse_frame_content(letter, slice_subrange(line, at + 1, line.len())) {
            Ok(frame) => Line::Frame(ch, frame),
            Err(e) => Line::Malformed(ch, e),
        }
    } else if letter == DEVICE_ERROR {
        Line::DeviceError(ch)
    } else {
        Line::Unknown(ch)
    }
}

} // verus!
