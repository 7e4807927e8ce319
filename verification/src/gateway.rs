//! The rule of the forwarding gateway: every frame that comes in on a
//! source bus goes out on the destination bus as an FD frame with bit rate
//! switching.

use crate::frame::{CanFrame, FrameView};
use vstd::prelude::*;

verus! {

/// What a source bus delivers.
#[derive(Debug, Clone)]
pub enum Incoming {
    /// A classical, remote or FD frame.
    Frame(CanFrame),
    /// An error notification of the bus.
    BusError,
}

/// The frame that goes out for a frame that came in: the same identifier
/// as an FD frame with bit rate switching. A classical or an FD frame
/// keeps its payload; a remote frame goes out with none.
pub open spec fn upgraded(f: FrameView) -> FrameView {
    FrameView {
        id: f.id,
        data: if f.rtr {
            Seq::empty()
        } else {
            f.data
        },
        ext: f.ext,
        rtr: false,
        fd: true,
        brs: true,
    }
}

/// Upgrades a frame for the destination bus.
pub fn upgrade(frame: CanFrame) -> (out: CanFrame)
    ensures
        out@ == upgraded(frame@),
        frame@.valid() ==> out@.valid(),
{
    let data: Vec<u8> = if frame.rtr {
        Vec::new()
    } else {
        frame.data
    };
    CanFrame { id: frame.id, data, ext: frame.ext, rtr: false, fd: true, brs: true }
}

/// What goes out for what came in: exactly one upgraded frame for a frame,
/// nothing for an error notification.
pub fn forward(incoming: Incoming) -> (out: Option<CanFrame>)
    ensures
        match incoming {
            Incoming::Frame(frame) => out is Some && out->Some_0@ == upgraded(frame@),
            Incoming::BusError => out is None,
        },
{
    match incoming {
        Incoming::Frame(frame) => Some(upgrade(frame)),
        Incoming::BusError => None,
    }
}

/// Upgrading keeps a valid frame valid, and a frame that was upgraded once
/// is not changed by upgrading it again.
pub proof fn lemma_upgraded_settles(f: FrameView)
    ensures
        f.valid() ==> upgraded(f).valid(),
        upgraded(upgraded(f)) == upgraded(f),
        upgraded(f).fd && upgraded(f).brs && !upgraded(f).rtr,
{
    assert(upgraded(upgraded(f)).data =~= upgraded(f).data);
}

} // verus!
