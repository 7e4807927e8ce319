//! The channel facade: one of the logical buses of the device, seen from
//! the application. Every operation puts one request, or a few, on the
//! command queue of the worker and returns; none waits for the device.

use crate::config::{
    bitrate_command, bitrate_text, close_command, close_text, data_bitrate_command,
    data_bitrate_text, is_data_bitrate, open_command, open_text, sample_point_commands,
    sample_point_texts, text_views,
};
use crate::frame::CanFrame;
use crate::message::{Command, CommandView, SlcanError};
use crossbeam_channel::Sender;
use vstd::prelude::*;

verus! {

/// The sending half of a `crossbeam_channel` queue. Verus takes it as
/// opaque: nothing is known of what a queue holds.
#[verifier::external_type_specification]
#[verifier::external_body]
#[verifier::reject_recursive_types(T)]
pub struct ExSender<T>(Sender<T>);

/// `Clone::clone` of `crossbeam_channel::Sender` gives another sender for
/// the same queue. Nothing is claimed of it.
pub assume_specification<T>[ <Sender<T> as Clone>::clone ](queue: &Sender<T>) -> (copy: Sender<T>);

/// Puts a command on a queue with `crossbeam_channel::Sender::send` and
/// says whether the queue took it. The queue refuses a message only when
/// every receiver is gone, and a queue with a bound makes the call wait
/// while it is full. Which of these happens lies with the other threads,
/// so nothing is claimed of the answer.
#[verifier::external_body]
fn enqueue(queue: &Sender<Command>, cmd: Command) -> (taken: bool) {
    queue.send(cmd).is_ok()
}

/// What an operation reports after the queue took its request, or did not.
pub fn sent_result(taken: bool) -> (r: Result<(), SlcanError>)
    ensures
        taken ==> r is Ok,
        !taken ==> r is Err && r->Err_0 is Disconnected,
{
    if taken {
        Ok(())
    } else {
        Err(SlcanError::Disconnected)
    }
}

/// Whether an operation went through or found the queue without a
/// receiver: the two ways in which an operation with a good argument ends.
pub open spec fn sent_or_disconnected(r: Result<(), SlcanError>) -> bool {
    r is Ok || r->Err_0 is Disconnected
}

/// The views of a list of commands, in order.
pub open spec fn command_views(cmds: Seq<Command>) -> Seq<CommandView> {
    cmds.map_values(|c: Command| c@)
}

/// The requests that send a list of configuration texts on a bus, in
/// order.
pub open spec fn raw_requests(id: u8, texts: Seq<Seq<char>>) -> Seq<CommandView> {
    texts.map_values(|t: Seq<char>| CommandView::SendRaw(id, t))
}

/// One logical bus of the device.
#[derive(Clone)]
pub struct Channel {
    id: u8,
    cmd_tx: Sender<Command>,
}

impl Channel {
    /// The number of the bus.
    pub closed spec fn channel_id(&self) -> u8 {
        self.id
    }

    /// The facade of bus `id` over the command queue of a worker.
    pub fn new(id: u8, cmd_tx: Sender<Command>) -> (channel: Self)
        ensures
            channel.channel_id() == id,
    {
        Channel { id, cmd_tx }
    }

    /// The number of the bus.
    pub fn id(&self) -> (id: u8)
        ensures
            id == self.channel_id(),
    {
        self.id
    }

    /// The request that sends a frame on this bus.
    pub fn frame_request(&self, frame: CanFrame) -> (cmd: Command)
        ensures
            cmd@ == CommandView::SendFrame(self.channel_id(), frame@),
    {
        Command::SendFrame(self.id, frame)
    }

    /// The request that sends a configuration text on this bus.
    pub fn raw_request(&self, text: String) -> (cmd: Command)
        ensures
            cmd@ == CommandView::SendRaw(self.channel_id(), text@),
    {
        Command::SendRaw(self.id, text)
    }

    /// The request that sets the nominal bit rate of this bus.
    pub fn bitrate_request(&self, bitrate: u32) -> (cmd: Command)
        ensures
            cmd@ == CommandView::SendRaw(self.channel_id(), bitrate_text(bitrate)),
    {
        self.raw_request(bitrate_command(bitrate))
    }

    /// The request that sets the data bit rate of this bus. The bit rate is
    /// given as a number of whole megabits per second, from 1 to 15; any
    /// other value is refused.
    pub fn data_bitrate_request(&self, bitrate: u32) -> (made: Result<Command, SlcanError>)
        ensures
            is_data_bitrate(bitrate) ==> made is Ok && made->Ok_0@ == CommandView::SendRaw(
                self.channel_id(),
                data_bitrate_text(bitrate),
            ),
            !is_data_bitrate(bitrate) ==> made is Err && made->Err_0 is InvalidArgument,
    {
        match data_bitrate_command(bitrate) {
            Ok(text) => Ok(self.raw_request(text)),
            Err(e) => Err(e),
        }
    }

    /// The requests that set the sample points of this bus, each given in
    /// tenths of a percent: the nominal one first.
    pub fn sample_point_requests(&self, nominal: Option<u32>, data: Option<u32>) -> (cmds: Vec<
        Command,
    >)
        ensures
            command_views(cmds@) == raw_requests(
                self.channel_id(),
                sample_point_texts(nominal, data),
            ),
    {
        let mut texts: Vec<String> = sample_point_commands(nominal, data);
        let ghost all = text_views(texts@);
        let mut cmds: Vec<Command> = Vec::new();
        while texts.len() > 0
            invariant
                command_views(cmds@) + raw_requests(self.channel_id(), text_views(texts@))
                    == raw_requests(self.channel_id(), all),
            decreases texts@.len(),
        {
            let ghost before = texts@;
            let text: String = texts.remove(0);
            let cmd: Command = self.raw_request(text);
            proof {
                let id = self.channel_id();
                assert(text_views(before) == seq![text@] + text_views(texts@));
                assert(raw_requests(id, text_views(before)) == seq![cmd@] + raw_requests(
                    id,
                    text_views(texts@),
                ));
                assert(command_views(cmds@.push(cmd)) == command_views(cmds@) + seq![cmd@]);
            }
            cmds.push(cmd);
        }
        proof {
            assert(raw_requests(self.channel_id(), text_views(texts@)) == Seq::<
                CommandView,
            >::empty());
        }
        cmds
    }

    /// The request that opens this bus.
    pub fn open_request(&self) -> (cmd: Command)
        ensures
            cmd@ == CommandView::SendRaw(self.channel_id(), open_text()),
    {
        self.raw_request(open_command())
    }

    /// The request that closes this bus.
    pub fn close_request(&self) -> (cmd: Command)
        ensures
            cmd@ == CommandView::SendRaw(self.channel_id(), close_text()),
    {
        self.raw_request(close_command())
    }

    /// Puts one request on the queue.
    fn submit(&self, cmd: Command) -> (r: Result<(), SlcanError>)
        ensures
            sent_or_disconnected(r),
    {
        sent_result(enqueue(&self.cmd_tx, cmd))
    }

    /// Queues [`Channel::frame_request`].
    pub fn send(&self, frame: CanFrame) -> (r: Result<(), SlcanError>)
        ensures
            sent_or_disconnected(r),
    {
        self.submit(self.frame_request(frame))
    }

    /// Queues [`Channel::raw_request`] for a configuration text, which is
    /// not examined.
    pub fn send_cmd(&self, cmd: &str) -> (r: Result<(), SlcanError>)
        ensures
            sent_or_disconnected(r),
    {
        self.submit(self.raw_request(cmd.to_owned()))
    }

    /// Queues [`Channel::bitrate_request`].
    pub fn set_bitrate(&self, bitrate: u32) -> (r: Result<(), SlcanError>)
        ensures
            sent_or_disconnected(r),
    {
        self.submit(self.bitrate_request(bitrate))
    }

    /// Queues [`Channel::data_bitrate_request`] for a bit rate of 1 to 15,
    /// given as a number of whole megabits per second. Any other value is
    /// refused, and nothing is queued.
    pub fn set_data_bitrate(&self, bitrate: u32) -> (r: Result<(), SlcanError>)
        ensures
            is_data_bitrate(bitrate) ==> sent_or_disconnected(r),
            !is_data_bitrate(bitrate) ==> r is Err && r->Err_0 is InvalidArgument,
    {
        match self.data_bitrate_request(bitrate) {
            Ok(cmd) => self.submit(cmd),
            Err(e) => Err(e),
        }
    }

    /// Queues [`Channel::sample_point_requests`] one by one, and stops at
    /// the first that the queue does not take.
    pub fn set_sample_point(&self, nominal: Option<u32>, data: Option<u32>) -> (r: Result<
        (),
        SlcanError,
    >)
        ensures
            sent_or_disconnected(r),
            nominal is None && data is None ==> r is Ok,
    {
        let mut cmds: Vec<Command> = self.sample_point_requests(nominal, data);
        assert(command_views(cmds@).len() == cmds@.len());
        while cmds.len() > 0
            invariant
                nominal is Some || data is Some || cmds@.len() == 0,
            decreases cmds@.len(),
        {
            let cmd: Command = cmds.remove(0);
            match self.submit(cmd) {
                Ok(()) => {},
                Err(e) => {
                    return Err(e);
                },
            }
        }
        Ok(())
    }

    /// Queues [`Channel::open_request`].
    pub fn open(&self) -> (r: Result<(), SlcanError>)
        ensures
            sent_or_disconnected(r),
    {
        self.submit(self.open_request())
    }

    /// Queues [`Channel::close_request`].
    pub fn close(&self) -> (r: Result<(), SlcanError>)
        ensures
            sent_or_disconnected(r),
    {
        self.submit(self.close_request())
    }
}

} // verus!
