//! Encoder of the line protocol: a channel and a frame, or a channel and a
//! configuration text, as one terminated ASCII line.

use crate::digits::{dec_text, hex_digit, hex_digit_of, hex_text, push_dec, push_hex};
use crate::frame::{len_dlc, len_to_dlc, CanFrame, FrameView};
use vstd::prelude::*;
use vstd::string::StringSliceAdditionalSpecFns;

verus! {

/// The byte that ends every line, a carriage return.
pub const LINE_END: u8 = 0x0D;

/// `t`: data frame with a standard identifier.
pub const DATA_STD: u8 = 0x74;

/// `T`: data frame with an extended identifier.
pub const DATA_EXT: u8 = 0x54;

/// `r`: remote frame with a standard identifier.
pub const REMOTE_STD: u8 = 0x72;

/// `R`: remote frame with an extended identifier.
pub const REMOTE_EXT: u8 = 0x52;

/// `d`: FD frame with a standard identifier.
pub const FD_STD: u8 = 0x64;

/// `D`: FD frame with an extended identifier.
pub const FD_EXT: u8 = 0x44;

/// `b`: FD frame with bit rate switching and a standard identifier.
pub const BRS_STD: u8 = 0x62;

/// `B`: FD frame with bit rate switching and an extended identifier.
pub const BRS_EXT: u8 = 0x42;

/// Command letter of a frame: `t`, `r`, `d` or `b` for a plain, remote, FD
/// or FD frame with bit rate switching, in lower case for a standard
/// identifier and in upper case for an extended one. An FD frame is never
/// sent as remote, and bit rate switching shows on FD frames only.
pub open spec fn command_letter(f: FrameView) -> u8 {
    if f.fd {
        if f.brs {
            if f.ext {
                BRS_EXT
            } else {
                BRS_STD
            }
        } else {
            if f.ext {
                FD_EXT
            } else {
                FD_STD
            }
        }
    } else {
        if f.rtr {
            if f.ext {
                REMOTE_EXT
            } else {
                REMOTE_STD
            }
        } else {
            if f.ext {
                DATA_EXT
            } else {
                DATA_STD
            }
        }
    }
}

/// Number of identifier digits on the wire.
pub open spec fn id_width(ext: bool) -> nat {
    if ext {
        8
    } else {
        3
    }
}

/// A payload as text: two upper-case hexadecimal digits for each byte.
pub open spec fn payload_text(data: Seq<u8>) -> Seq<u8>
    decreases data.len(),
{
    if data.len() == 0 {
        Seq::empty()
    } else {
        payload_text(data.drop_last()) + hex_text(data.last() as nat, 2)
    }
}

/// The line that carries a frame on a channel: the channel number, the
/// command letter, the identifier, the data length code, the payload unless
/// the frame is remote, and the terminator.
pub open spec fn frame_line(ch: u8, f: FrameView) -> Seq<u8> {
    dec_text(ch as nat).push(command_letter(f)) + hex_text(f.id as nat, id_width(f.ext)).push(
        hex_digit(len_dlc(f.data.len())),
    ) + (if f.rtr {
        Seq::empty()
    } else {
        payload_text(f.data)
    }).push(LINE_END)
}

/// The line that carries a configuration text on a channel: the channel
/// number, the text as it stands, and the terminator.
pub open spec fn raw_line(ch: u8, text: Seq<char>) -> Seq<u8> {
    (dec_text(ch as nat) + vstd::utf8::encode_utf8(text)).push(LINE_END)
}

/// Command letter of a frame.
pub fn frame_letter(frame: &CanFrame) -> (letter: u8)
    ensures
        letter == command_letter(frame@),
{
    if frame.fd {
        if frame.brs {
            if frame.ext {
                BRS_EXT
            } else {
                BRS_STD
            }
        } else {
            if frame.ext {
                FD_EXT
            } else {
                FD_STD
            }
        }
    } else {
        if frame.rtr {
            if frame.ext {
                REMOTE_EXT
            } else {
                REMOTE_STD
            }
        } else {
            if frame.ext {
                DATA_EXT
            } else {
                DATA_STD
            }
        }
    }
}

/// Appends a payload as pairs of upper-case hexadecimal digits.
pub fn push_payload(buf: &mut Vec<u8>, data: &[u8])
    ensures
        final(buf)@ == old(buf)@ + payload_text(data@),
{
    let mut i: usize = 0;
    while i < data.len()
        invariant
            i <= data@.len(),
            buf@ == old(buf)@ + payload_text(data@.subrange(0, i as int)),
        decreases data@.len() - i,
    {
        proof {
            assert(data@.subrange(0, i + 1).drop_last() == data@.subrange(0, i as int));
        }
        push_hex(buf, data[i] as u32, 2);
        i = i + 1;
    }
    proof {
        assert(data@.subrange(0, i as int) == data@);
    }
}

/// Appends the line for a frame on a channel to a write buffer.
pub fn serialize_frame(ch: u8, frame: &CanFrame, buf: &mut Vec<u8>)
    ensures
        final(buf)@ == old(buf)@ + frame_line(ch, frame@),
{
    push_dec(buf, ch as u32);
    buf.push(frame_letter(frame));
    let width: u8 = if frame.ext {
        8
    } else {
        3
    };
    push_hex(buf, frame.id, width);
    buf.push(hex_digit_of(len_to_dlc(frame.data.len())));
    if !frame.rtr {
        push_payload(buf, frame.data.as_slice());
    }
    buf.push(LINE_END);
}

/// Appends the line for a configuration text on a channel to a write
/// buffer. The text is not examined.
pub fn serialize_raw(ch: u8, text: &str, buf: &mut Vec<u8>)
    ensures
        final(buf)@ == old(buf)@ + raw_line(ch, text@),
{
    push_dec(buf, ch as u32);
    buf.extend_from_slice(text.as_bytes());
    buf.push(LINE_END);
}

} // verus!
