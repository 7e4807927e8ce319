//! CAN frame value type and the table between data length codes and payload
//! lengths.

use vstd::prelude::*;

verus! {

/// Width of a frame identifier.
#[derive(Debug, Clone, Copy, PartialEq, Eq, Structural)]
pub enum FrameType {
    /// 11-bit identifier.
    Standard,
    /// 29-bit identifier.
    Extended,
}

/// One CAN frame: classical, extended, FD, FD with bit rate switching, or
/// remote.
#[derive(Debug, Clone)]
pub struct CanFrame {
    pub id: u32,
    pub data: Vec<u8>,
    pub ext: bool,
    pub rtr: bool,
    pub fd: bool,
    pub brs: bool,
}

/// Mathematical value of a [`CanFrame`].
pub struct FrameView {
    pub id: u32,
    pub data: Seq<u8>,
    pub ext: bool,
    pub rtr: bool,
    pub fd: bool,
    pub brs: bool,
}

impl View for CanFrame {
    type V = FrameView;

    open spec fn view(&self) -> FrameView {
        FrameView {
            id: self.id,
            data: self.data@,
            ext: self.ext,
            rtr: self.rtr,
            fd: self.fd,
            brs: self.brs,
        }
    }
}

/// Largest payload of an FD frame, in bytes.
pub const MAX_PAYLOAD: usize = 64;

/// Largest identifier of a standard frame.
pub const MAX_STANDARD_ID: u32 = 0x7FF;

/// Largest identifier of an extended frame.
pub const MAX_EXTENDED_ID: u32 = 0x1FFF_FFFF;

/// Payload length that a data length code stands for. Codes above 15 do not
/// occur on the wire and are read as the largest payload.
pub open spec fn dlc_len(dlc: nat) -> nat {
    if dlc <= 8 {
        dlc
    } else if dlc == 9 {
        12
    } else if dlc == 10 {
        16
    } else if dlc == 11 {
        20
    } else if dlc == 12 {
        24
    } else if dlc == 13 {
        32
    } else if dlc == 14 {
        48
    } else {
        64
    }
}

/// A length that some data length code stands for exactly.
pub open spec fn is_canonical_len(len: nat) -> bool {
    len <= 8 || len == 12 || len == 16 || len == 20 || len == 24 || len == 32 || len == 48 || len
        == 64
}

/// Smallest data length code whose payload holds `len` bytes, and 15 where
/// none does.
pub open spec fn len_dlc(len: nat) -> nat {
    if len <= 8 {
        len
    } else if len <= 12 {
        9
    } else if len <= 16 {
        10
    } else if len <= 20 {
        11
    } else if len <= 24 {
        12
    } else if len <= 32 {
        13
    } else if len <= 48 {
        14
    } else {
        15
    }
}

impl FrameView {
    /// The frame invariant: bit rate switching only on FD frames, an
    /// identifier that fits the frame's identifier width, a payload length
    /// that a data length code can name, and no payload on a remote frame.
    pub open spec fn valid(self) -> bool {
        &&& self.brs ==> self.fd
        &&& self.id <= (if self.ext {
            MAX_EXTENDED_ID
        } else {
            MAX_STANDARD_ID
        })
        &&& is_canonical_len(self.data.len())
        &&& self.rtr ==> self.data.len() == 0
    }

    /// Identifier width of the frame.
    pub open spec fn frame_type(self) -> FrameType {
        if self.ext {
            FrameType::Extended
        } else {
            FrameType::Standard
        }
    }
}

/// Copy of a byte slice.
pub fn copy_bytes(data: &[u8]) -> (out: Vec<u8>)
    ensures
        out@ == data@,
{
    let mut out: Vec<u8> = Vec::new();
    let mut i: usize = 0;
    while i < data.len()
        invariant
            i <= data.len(),
            out@ == data@.subrange(0, i as int),
        decreases data.len() - i,
    {
        out.push(data[i]);
        i = i + 1;
    }
    out
}

impl CanFrame {
    /// A classical data frame with a standard identifier.
    pub fn new_std(id: u32, data: &[u8]) -> (frame: Self)
        ensures
            frame@ == (FrameView { id, data: data@, ext: false, rtr: false, fd: false, brs: false }),
    {
        CanFrame { id, data: copy_bytes(data), ext: false, rtr: false, fd: false, brs: false }
    }

    /// A classical data frame with an extended identifier.
    pub fn new_ext(id: u32, data: &[u8]) -> (frame: Self)
        ensures
            frame@ == (FrameView { id, data: data@, ext: true, rtr: false, fd: false, brs: false }),
    {
        CanFrame { id, data: copy_bytes(data), ext: true, rtr: false, fd: false, brs: false }
    }

    /// An FD data frame with a standard identifier, with or without bit rate
    /// switching.
    pub fn new_fd(id: u32, data: &[u8], brs: bool) -> (frame: Self)
        ensures
            frame@ == (FrameView { id, data: data@, ext: false, rtr: false, fd: true, brs }),
    {
        CanFrame { id, data: copy_bytes(data), ext: false, rtr: false, fd: true, brs }
    }

    /// Identifier width of the frame.
    pub fn frame_type(&self) -> (kind: FrameType)
        ensures
            kind == self@.frame_type(),
    {
        if self.ext {
            FrameType::Extended
        } else {
            FrameType::Standard
        }
    }

    /// Whether the frame meets the frame invariant.
    pub fn is_valid(&self) -> (ok: bool)
        ensures
            ok == self@.valid(),
    {
        let n: usize = self.data.len();
        let canonical: bool = n <= 8 || n == 12 || n == 16 || n == 20 || n == 24 || n == 32 || n
            == 48 || n == 64;
        let limit: u32 = if self.ext {
            MAX_EXTENDED_ID
        } else {
            MAX_STANDARD_ID
        };
        (!self.brs || self.fd) && self.id <= limit && canonical && (!self.rtr || n == 0)
    }
}

/// Payload length for a data length code: codes 0 to 8 stand for themselves,
/// codes 9 to 15 for 12, 16, 20, 24, 32, 48 and 64 bytes.
pub fn dlc_to_len(dlc: u8) -> (len: usize)
    ensures
        len == dlc_len(dlc as nat),
        is_canonical_len(len as nat),
{
    if dlc <= 8 {
        dlc as usize
    } else if dlc == 9 {
        12
    } else if dlc == 10 {
        16
    } else if dlc == 11 {
        20
    } else if dlc == 12 {
        24
    } else if dlc == 13 {
        32
    } else if dlc == 14 {
        48
    } else {
        64
    }
}

/// Data length code for a payload length, rounded up to the next length that
/// a code can name and held at 15 above 48 bytes.
pub fn len_to_dlc(len: usize) -> (dlc: u8)
    ensures
        dlc == len_dlc(len as nat),
        dlc <= 15,
{
    if len <= 8 {
        len as u8
    } else if len <= 12 {
        9
    } else if len <= 16 {
        10
    } else if len <= 20 {
        11
    } else if len <= 24 {
        12
    } else if len <= 32 {
        13
    } else if len <= 48 {
        14
    } else {
        15
    }
}

/// The code of a length names the smallest payload that holds the length:
/// up to 64 bytes nothing is lost, and no smaller code would do.
pub proof fn lemma_len_dlc_rounds_up(len: nat)
    requires
        len <= 64,
    ensures
        len_dlc(len) <= 15,
        len <= dlc_len(len_dlc(len)),
        forall|d: nat| d < len_dlc(len) ==> dlc_len(d) < len,
{
}

/// On the lengths that a code can name the two tables are inverse to each
/// other.
pub proof fn lemma_dlc_tables_inverse(dlc: nat, len: nat)
    ensures
        dlc <= 15 ==> len_dlc(dlc_len(dlc)) == dlc,
        is_canonical_len(len) ==> dlc_len(len_dlc(len)) == len,
        dlc <= 15 ==> is_canonical_len(dlc_len(dlc)),
{
}

/// Taking the code of a length, the length of that code and its code again
/// gives the first code: rounding a length is idempotent.
pub proof fn lemma_len_dlc_stable(len: nat)
    ensures
        len_dlc(dlc_len(len_dlc(len))) == len_dlc(len),
        dlc_len(len_dlc(dlc_len(len_dlc(len)))) == dlc_len(len_dlc(len)),
{
}

} // verus!
