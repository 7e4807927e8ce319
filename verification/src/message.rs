//! What goes into the worker and what comes out of it: commands, events and
//! the errors that the driver reports to its callers.

use crate::frame::{CanFrame, FrameView};
use vstd::prelude::*;
use vstd::string::StringExecFns;

verus! {

/// A request to the worker.
#[derive(Debug, Clone)]
pub enum Command {
    /// Send a frame on a channel.
    SendFrame(u8, CanFrame),
    /// Send a configuration text on a channel; the text has no terminator.
    SendRaw(u8, String),
    /// Leave the worker loop.
    Shutdown,
}

/// Mathematical value of a [`Command`].
pub enum CommandView {
    SendFrame(u8, FrameView),
    SendRaw(u8, Seq<char>),
    Shutdown,
}

impl View for Command {
    type V = CommandView;

    open spec fn view(&self) -> CommandView {
        match *self {
            Command::SendFrame(ch, frame) => CommandView::SendFrame(ch, frame@),
            Command::SendRaw(ch, text) => CommandView::SendRaw(ch, text@),
            Command::Shutdown => CommandView::Shutdown,
        }
    }
}

/// A report of the worker.
#[derive(Debug, Clone)]
pub enum Event {
    /// A frame arrived on a channel.
    FrameReceived(u8, CanFrame),
    /// The device failed; the text says how.
    Error(String),
}

/// Mathematical value of an [`Event`].
pub enum EventView {
    FrameReceived(u8, FrameView),
    Error(Seq<char>),
}

impl View for Event {
    type V = EventView;

    open spec fn view(&self) -> EventView {
        match *self {
            Event::FrameReceived(ch, frame) => EventView::FrameReceived(ch, frame@),
            Event::Error(text) => EventView::Error(text@),
        }
    }
}

/// The views of a list of events, in order.
pub open spec fn event_views(events: Seq<Event>) -> Seq<EventView> {
    events.map_values(|e: Event| e@)
}

/// What the driver reports to a caller.
#[derive(Debug, Clone)]
pub enum SlcanError {
    /// The device failed; the text says how.
    Device(String),
    /// A value that the device has no setting for.
    InvalidArgument,
    /// The other end of a queue is gone.
    Disconnected,
}

/// Mathematical value of a [`SlcanError`].
pub enum ErrorView {
    Device(Seq<char>),
    InvalidArgument,
    Disconnected,
}

impl View for SlcanError {
    type V = ErrorView;

    open spec fn view(&self) -> ErrorView {
        match *self {
            SlcanError::Device(text) => ErrorView::Device(text@),
            SlcanError::InvalidArgument => ErrorView::InvalidArgument,
            SlcanError::Disconnected => ErrorView::Disconnected,
        }
    }
}

/// The text of an error, for a reader.
pub open spec fn error_text(e: ErrorView) -> Seq<char> {
    match e {
        ErrorView::Device(text) => "Device error: "@ + text,
        ErrorView::InvalidArgument => "Invalid data bitrate"@,
        ErrorView::Disconnected => "Disconnected"@,
    }
}

impl SlcanError {
    /// The text of the error, for a reader.
    pub fn message(&self) -> (text: String)
        ensures
            text@ == error_text(self@),
    {
        match self {
            SlcanError::Device(reason) => {
                let mut text: String = String::new();
                text.append("Device error: ");
                text.append(reason.as_str());
                text
            },
            SlcanError::InvalidArgument => "Invalid data bitrate".to_owned(),
            SlcanError::Disconnected => "Disconnected".to_owned(),
        }
    }
}

/// What a receive yields for an event: the channel and the frame of a
/// received frame, a failure for a device error.
pub open spec fn received(event: EventView) -> Result<(u8, FrameView), ErrorView> {
    match event {
        EventView::FrameReceived(ch, frame) => Ok((ch, frame)),
        EventView::Error(text) => Err(ErrorView::Device(text)),
    }
}

/// The view of a receive's result.
pub open spec fn received_view(r: Result<(u8, CanFrame), SlcanError>) -> Result<
    (u8, FrameView),
    ErrorView,
> {
    match r {
        Ok((ch, frame)) => Ok((ch, frame@)),
        Err(e) => Err(e@),
    }
}

/// Turns an event into the result of a receive: a frame is handed on with
/// its channel, a device error becomes a failure.
pub fn event_result(event: Event) -> (r: Result<(u8, CanFrame), SlcanError>)
    ensures
        received_view(r) == received(event@),
{
    match event {
        Event::FrameReceived(ch, frame) => Ok((ch, frame)),
        Event::Error(text) => Err(SlcanError::Device(text)),
    }
}

/// How a wait for an event ended.
#[derive(Debug, Clone)]
pub enum Waited {
    /// An event came.
    Got(Event),
    /// The time ran out first.
    TimedOut,
    /// The queue has no sender left and is empty.
    Disconnected,
}

/// The view of a timed receive's result.
pub open spec fn timed_view(r: Result<Option<(u8, CanFrame)>, SlcanError>) -> Result<
    Option<(u8, FrameView)>,
    ErrorView,
> {
    match r {
        Ok(Some((ch, frame))) => Ok(Some((ch, frame@))),
        Ok(None) => Ok(None),
        Err(e) => Err(e@),
    }
}

/// Turns the end of a wait into the result of a timed receive: nothing
/// when the time ran out, a failure for a device error and for a queue
/// without senders.
pub fn waited_result(waited: Waited) -> (r: Result<Option<(u8, CanFrame)>, SlcanError>)
    ensures
        timed_view(r) == (match waited {
            Waited::Got(event) => match received(event@) {
                Ok(pair) => Ok(Some(pair)),
                Err(e) => Err(e),
            },
            Waited::TimedOut => Ok(None),
            Waited::Disconnected => Err(ErrorView::Disconnected),
        }),
{
    match waited {
        Waited::Got(Event::FrameReceived(ch, frame)) => Ok(Some((ch, frame))),
        Waited::Got(Event::Error(text)) => Err(SlcanError::Device(text)),
        Waited::TimedOut => Ok(None),
        Waited::Disconnected => Err(SlcanError::Disconnected),
    }
}

} // verus!
