//! Driver core for a serial-attached, multi-channel CAN-FD adapter that speaks
//! a line-based ASCII protocol.
//!
//! Every function in this crate carries a contract that Verus proves; the
//! contracts are stated over the views of the data types and over the
//! specification functions that each module defines next to its code.

pub mod channel;
pub mod config;
pub mod decode;
pub mod digits;
pub mod encode;
pub mod frame;
pub mod gateway;
pub mod linebuf;
pub mod message;
pub mod roundtrip;
pub mod worker;

pub use channel::Channel;
pub use frame::{dlc_to_len, len_to_dlc, CanFrame, FrameType};
pub use message::{Command, Event, SlcanError};
