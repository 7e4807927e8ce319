//! The decisions of the serial worker. The worker reads from the serial
//! line, takes commands from its queue and writes them out in bursts; this
//! module holds its state and decides each step, and the caller does the
//! reading, the waiting and the writing.

use crate::decode::{decode_line, parse_line, Line, LineView, ParseError};
use crate::encode::{frame_line, raw_line, serialize_frame, serialize_raw};
use crate::frame::copy_bytes;
use crate::linebuf::{line_views, split_lines, LineBuffer};
use crate::message::{event_views, Command, CommandView, Event, EventView};
use vstd::prelude::*;
use vstd::string::StringExecFns;

verus! {

/// Longest wait for a command while nothing is pending, in nanoseconds.
pub const POLL_INTERVAL_NS: u128 = 1_000_000;

/// Longest wait for bytes from the serial line, in milliseconds.
pub const READ_TIMEOUT_MS: u64 = 10;

/// A burst that has grown beyond this many bytes is written out at once.
pub const BURST_CEILING: usize = 1024;

/// What the worker does next while it gathers a burst.
#[derive(Debug, Clone, Copy, PartialEq, Eq, Structural)]
pub enum DrainStep {
    /// Stop gathering and write the burst out.
    Flush,
    /// Nothing is pending: wait for a command, for the poll interval at
    /// most.
    Wait,
    /// Take a command if one is there at once, without waiting.
    Poll,
}

/// How the worker goes on after it asked for a command.
#[derive(Debug, Clone, Copy, PartialEq, Eq, Structural)]
pub enum Taken {
    /// The command is in the burst: decide the next step.
    More,
    /// No command came: write out what is pending, if anything.
    Done,
    /// The command was to shut down: leave the loop, writing nothing.
    Shutdown,
}

/// The step to take with `pending` bytes in the burst, `elapsed` time into
/// a grouping window of length `window`. With nothing pending the worker
/// waits; with a burst begun it goes on without waiting until the window
/// has run out or the burst is over the ceiling.
pub open spec fn drain_step(pending: nat, elapsed: nat, window: nat) -> DrainStep {
    if pending == 0 {
        DrainStep::Wait
    } else if elapsed > window || pending > BURST_CEILING {
        DrainStep::Flush
    } else {
        DrainStep::Poll
    }
}

/// The line that a command puts on the wire; a shutdown puts none.
pub open spec fn command_line(cmd: CommandView) -> Seq<u8> {
    match cmd {
        CommandView::SendFrame(ch, frame) => frame_line(ch, frame),
        CommandView::SendRaw(ch, text) => raw_line(ch, text),
        CommandView::Shutdown => Seq::empty(),
    }
}

/// The burst after the worker asked for a command and got `cmd`.
pub open spec fn burst_after(burst: Seq<u8>, cmd: Option<CommandView>) -> Seq<u8> {
    match cmd {
        None => burst,
        Some(CommandView::Shutdown) => Seq::empty(),
        Some(c) => burst + command_line(c),
    }
}

/// How the worker goes on after it asked for a command and got `cmd`.
pub open spec fn taken_after(cmd: Option<CommandView>) -> Taken {
    match cmd {
        None => Taken::Done,
        Some(CommandView::Shutdown) => Taken::Shutdown,
        Some(_) => Taken::More,
    }
}

/// The view of a command that may be missing.
pub open spec fn command_view(cmd: Option<Command>) -> Option<CommandView> {
    match cmd {
        Some(c) => Some(c@),
        None => None,
    }
}

/// Why a line of the device gave no event.
#[derive(Debug, Clone, Copy, PartialEq, Eq, Structural)]
pub enum DropReason {
    /// The line is empty or holds a channel digit only.
    Empty,
    /// A frame letter on a channel, followed by text that is no frame.
    Malformed(u8, ParseError),
    /// The device reports an error for a channel.
    DeviceError(u8),
    /// Some other response on a channel.
    Unknown(u8),
}

/// A line of the device that gave no event.
#[derive(Debug, Clone)]
pub struct Dropped {
    /// The line, without its terminator.
    pub line: Vec<u8>,
    /// Why it gave no event.
    pub reason: DropReason,
}

/// Mathematical value of a [`Dropped`].
pub struct DroppedView {
    pub line: Seq<u8>,
    pub reason: DropReason,
}

impl View for Dropped {
    type V = DroppedView;

    open spec fn view(&self) -> DroppedView {
        DroppedView { line: self.line@, reason: self.reason }
    }
}

/// The views of a list of dropped lines, in order.
pub open spec fn dropped_views(dropped: Seq<Dropped>) -> Seq<DroppedView> {
    dropped.map_values(|d: Dropped| d@)
}

/// What the lines of one read gave.
#[derive(Debug)]
pub struct Received {
    /// The frames received, in the order of their lines.
    pub events: Vec<Event>,
    /// The lines that gave no event, in order.
    pub dropped: Vec<Dropped>,
}

/// What the caller of the worker does next.
#[derive(Debug, Clone, Copy, PartialEq, Eq, Structural)]
pub enum Next {
    /// Read from the serial line, for the read timeout at most, and open
    /// a new grouping window when the read has returned.
    Read,
    /// Wait for a command, for the poll interval at most.
    Wait,
    /// Take a command if one is there at once.
    Poll,
    /// Leave the loop.
    Exit,
}

/// What the worker asks of its caller after one step.
#[derive(Debug)]
pub struct Step {
    /// Events for the application, in order.
    pub emit: Vec<Event>,
    /// The lines that were read and gave no event, in order, for the log.
    pub dropped: Vec<Dropped>,
    /// A burst for the serial line, to be written in one call. A write
    /// that fails is not tried again.
    pub write: Option<Vec<u8>>,
    /// What to do after that.
    pub next: Next,
}

/// Mathematical value of a [`Step`].
pub struct StepView {
    pub emit: Seq<EventView>,
    pub dropped: Seq<DroppedView>,
    pub write: Option<Seq<u8>>,
    pub next: Next,
}

impl View for Step {
    type V = StepView;

    open spec fn view(&self) -> StepView {
        StepView {
            emit: event_views(self.emit@),
            dropped: dropped_views(self.dropped@),
            write: match self.write {
                Some(bytes) => Some(bytes@),
                None => None,
            },
            next: self.next,
        }
    }
}

/// What becomes of a burst at a step: what is written, what the caller
/// does next, and what stays in the burst.
pub struct Plan {
    pub write: Option<Seq<u8>>,
    pub next: Next,
    pub burst: Seq<u8>,
}

/// The plan while gathering, `elapsed` time into the grouping window: a
/// flush writes the whole burst and goes back to reading; otherwise
/// nothing is written and the next command is waited for or polled.
pub open spec fn plan_gather(burst: Seq<u8>, elapsed: nat, window: nat) -> Plan {
    match drain_step(burst.len(), elapsed, window) {
        DrainStep::Flush => Plan { write: Some(burst), next: Next::Read, burst: Seq::empty() },
        DrainStep::Wait => Plan { write: None, next: Next::Wait, burst },
        DrainStep::Poll => Plan { write: None, next: Next::Poll, burst },
    }
}

/// The plan after the caller asked for a command and got `cmd`, `elapsed`
/// time into the grouping window. A command to send joins the burst, and
/// gathering goes on. With no command the burst is written if it holds
/// anything, and the worker goes back to reading. A shutdown ends the loop
/// and the burst is dropped unwritten.
pub open spec fn plan_fetched(
    burst: Seq<u8>,
    cmd: Option<CommandView>,
    elapsed: nat,
    window: nat,
) -> Plan {
    let gathered = burst_after(burst, cmd);
    match taken_after(cmd) {
        Taken::More => plan_gather(gathered, elapsed, window),
        Taken::Done => Plan {
            write: if gathered.len() > 0 {
                Some(gathered)
            } else {
                None
            },
            next: Next::Read,
            burst: Seq::empty(),
        },
        Taken::Shutdown => Plan { write: None, next: Next::Exit, burst: Seq::empty() },
    }
}

/// The event that a line of the device gives rise to: a received frame
/// for a line that holds one, none for any other line.
pub open spec fn line_event(line: Seq<u8>) -> Option<EventView> {
    match decode_line(line) {
        LineView::Frame(ch, frame) => Some(EventView::FrameReceived(ch, frame)),
        _ => None,
    }
}

/// The events that a list of lines gives rise to, in the order of the
/// lines.
pub open spec fn line_events(lines: Seq<Seq<u8>>) -> Seq<EventView>
    decreases lines.len(),
{
    if lines.len() == 0 {
        Seq::empty()
    } else {
        let head = line_events(lines.drop_last());
        match line_event(lines.last()) {
            Some(e) => head.push(e),
            None => head,
        }
    }
}

/// Why a line of the device gives no event: nothing for a line that holds
/// a frame, and for any other line what the decoder made of it.
pub open spec fn drop_reason(line: Seq<u8>) -> Option<DropReason> {
    match decode_line(line) {
        LineView::Frame(_, _) => None,
        LineView::Empty => Some(DropReason::Empty),
        LineView::Malformed(ch, e) => Some(DropReason::Malformed(ch, e)),
        LineView::DeviceError(ch) => Some(DropReason::DeviceError(ch)),
        LineView::Unknown(ch) => Some(DropReason::Unknown(ch)),
    }
}

/// The lines of a list that give no event, each with the reason, in the
/// order of the lines.
pub open spec fn line_drops(lines: Seq<Seq<u8>>) -> Seq<DroppedView>
    decreases lines.len(),
{
    if lines.len() == 0 {
        Seq::empty()
    } else {
        let head = line_drops(lines.drop_last());
        match drop_reason(lines.last()) {
            Some(reason) => head.push(DroppedView { line: lines.last(), reason }),
            None => head,
        }
    }
}

/// Reads each line: a line that holds a frame gives an event, and every
/// other line is handed out with the reason why it gave none.
pub fn read_lines(lines: &Vec<Vec<u8>>) -> (got: Received)
    ensures
        event_views(got.events@) == line_events(line_views(lines@)),
        dropped_views(got.dropped@) == line_drops(line_views(lines@)),
{
    let mut events: Vec<Event> = Vec::new();
    let mut dropped: Vec<Dropped> = Vec::new();
    let mut i: usize = 0;
    while i < lines.len()
        invariant
            i <= lines@.len(),
            event_views(events@) == line_events(line_views(lines@).subrange(0, i as int)),
            dropped_views(dropped@) == line_drops(line_views(lines@).subrange(0, i as int)),
        decreases lines@.len() - i,
    {
        let parsed: Line = parse_line(lines[i].as_slice());
        proof {
            let done = line_views(lines@).subrange(0, i + 1);
            assert(done.drop_last() == line_views(lines@).subrange(0, i as int));
            assert(done.last() == lines@[i as int]@);
        }
        let reason: DropReason = match parsed {
            Line::Frame(ch, frame) => {
                let event: Event = Event::FrameReceived(ch, frame);
                proof {
                    assert(event_views(events@.push(event)) == event_views(events@).push(event@));
                }
                events.push(event);
                i = i + 1;
                continue;
            },
            Line::Empty => DropReason::Empty,
            Line::Malformed(ch, e) => DropReason::Malformed(ch, e),
            Line::DeviceError(ch) => DropReason::DeviceError(ch),
            Line::Unknown(ch) => DropReason::Unknown(ch),
        };
        let record: Dropped = Dropped { line: copy_bytes(lines[i].as_slice()), reason };
        proof {
            assert(dropped_views(dropped@.push(record)) == dropped_views(dropped@).push(record@));
        }
        dropped.push(record);
        i = i + 1;
    }
    proof {
        assert(line_views(lines@).subrange(0, i as int) == line_views(lines@));
    }
    Received { events, dropped }
}

/// The event that reports a failed read, if the failure is one: a read
/// that merely timed out is none, and the worker goes on; any other
/// failure is reported with its text, and the worker ends.
pub fn read_failure(timed_out: bool, reason: String) -> (event: Option<Event>)
    ensures
        timed_out ==> event is None,
        !timed_out ==> event is Some && event->Some_0@ == EventView::Error(reason@),
{
    if timed_out {
        None
    } else {
        Some(Event::Error(reason))
    }
}

/// The event that reports that the serial line could not be opened.
pub fn open_failure(reason: &str) -> (event: Event)
    ensures
        event@ == EventView::Error("Failed to open port: "@ + reason@),
{
    let mut text: String = String::new();
    text.append("Failed to open port: ");
    text.append(reason);
    Event::Error(text)
}

/// State of the worker between two steps.
pub struct Worker {
    input: LineBuffer,
    burst: Vec<u8>,
    window_ns: u128,
}

/// Mathematical value of a [`Worker`].
pub struct WorkerView {
    /// Bytes received that wait for their terminator.
    pub waiting: Seq<u8>,
    /// Bytes of the burst that is being gathered.
    pub burst: Seq<u8>,
    /// Length of the grouping window, in nanoseconds.
    pub window: nat,
}

impl View for Worker {
    type V = WorkerView;

    closed spec fn view(&self) -> WorkerView {
        WorkerView { waiting: self.input@, burst: self.burst@, window: self.window_ns as nat }
    }
}

impl Worker {
    /// A worker with nothing received and nothing pending.
    pub fn new(window_ns: u128) -> (worker: Self)
        ensures
            worker@.waiting == Seq::<u8>::empty(),
            worker@.burst == Seq::<u8>::empty(),
            worker@.window == window_ns,
    {
        Worker { input: LineBuffer::new(), burst: Vec::new(), window_ns }
    }

    /// Number of bytes in the burst.
    pub fn pending(&self) -> (n: usize)
        ensures
            n == self@.burst.len(),
    {
        self.burst.len()
    }

    /// Takes in what one read delivered: every line that it completed is
    /// read. The frames received come back in order, and so do the lines
    /// that hold no frame, each with the reason. The burst is left alone.
    pub fn on_data(&mut self, bytes: &[u8]) -> (got: Received)
        ensures
            event_views(got.events@) == line_events(
                split_lines(old(self)@.waiting + bytes@).lines,
            ),
            dropped_views(got.dropped@) == line_drops(
                split_lines(old(self)@.waiting + bytes@).lines,
            ),
            final(self)@.waiting == split_lines(old(self)@.waiting + bytes@).tail,
            final(self)@.burst == old(self)@.burst,
            final(self)@.window == old(self)@.window,
    {
        let lines: Vec<Vec<u8>> = self.input.push_bytes(bytes);
        read_lines(&lines)
    }

    /// Decides the next step of gathering, `elapsed_ns` after the grouping
    /// window was opened.
    pub fn next_step(&self, elapsed_ns: u128) -> (step: DrainStep)
        ensures
            step == drain_step(self@.burst.len(), elapsed_ns as nat, self@.window),
    {
        if self.burst.len() == 0 {
            DrainStep::Wait
        } else if elapsed_ns > self.window_ns || self.burst.len() > BURST_CEILING {
            DrainStep::Flush
        } else {
            DrainStep::Poll
        }
    }

    /// Takes what the queue gave: a frame or a configuration text is
    /// encoded at the end of the burst, a shutdown empties the burst, and
    /// with no command the burst stays as it is.
    pub fn accept(&mut self, cmd: Option<Command>) -> (taken: Taken)
        ensures
            taken == taken_after(command_view(cmd)),
            final(self)@.burst == burst_after(old(self)@.burst, command_view(cmd)),
            final(self)@.waiting == old(self)@.waiting,
            final(self)@.window == old(self)@.window,
    {
        match cmd {
            None => Taken::Done,
            Some(Command::Shutdown) => {
                self.burst.clear();
                Taken::Shutdown
            },
            Some(Command::SendFrame(ch, frame)) => {
                serialize_frame(ch, &frame, &mut self.burst);
                Taken::More
            },
            Some(Command::SendRaw(ch, text)) => {
                serialize_raw(ch, text.as_str(), &mut self.burst);
                Taken::More
            },
        }
    }

    /// Hands out the burst for writing, if it holds anything, and starts
    /// an empty one. Whether the write succeeds or not, the bytes are not
    /// kept.
    pub fn take_burst(&mut self) -> (bytes: Option<Vec<u8>>)
        ensures
            old(self)@.burst.len() == 0 ==> bytes is None,
            old(self)@.burst.len() > 0 ==> bytes is Some && bytes->Some_0@ == old(self)@.burst,
            final(self)@.burst == Seq::<u8>::empty(),
            final(self)@.waiting == old(self)@.waiting,
            final(self)@.window == old(self)@.window,
    {
        if self.burst.len() == 0 {
            return None;
        }
        let mut bytes: Vec<u8> = Vec::new();
        std::mem::swap(&mut bytes, &mut self.burst);
        Some(bytes)
    }

    /// Carries out the plan of gathering: hands out the burst when the
    /// step is to flush, and leaves it alone otherwise.
    fn gather(&mut self, elapsed_ns: u128) -> (planned: (Option<Vec<u8>>, Next))
        ensures
            (match planned.0 {
                Some(bytes) => Some(bytes@),
                None => None,
            }) == plan_gather(old(self)@.burst, elapsed_ns as nat, old(self)@.window).write,
            planned.1 == plan_gather(old(self)@.burst, elapsed_ns as nat, old(self)@.window).next,
            final(self)@.burst == plan_gather(
                old(self)@.burst,
                elapsed_ns as nat,
                old(self)@.window,
            ).burst,
            final(self)@.waiting == old(self)@.waiting,
            final(self)@.window == old(self)@.window,
    {
        match self.next_step(elapsed_ns) {
            DrainStep::Flush => (self.take_burst(), Next::Read),
            DrainStep::Wait => (None, Next::Wait),
            DrainStep::Poll => (None, Next::Poll),
        }
    }

    /// The step after a read that returned, with the bytes that it
    /// delivered or with none. The frames in the lines that the bytes
    /// completed are reported, the other lines are handed out for the log,
    /// and gathering starts in a grouping window that opens now.
    pub fn after_read(&mut self, bytes: &[u8]) -> (step: Step)
        ensures
            step@.emit == line_events(split_lines(old(self)@.waiting + bytes@).lines),
            step@.dropped == line_drops(split_lines(old(self)@.waiting + bytes@).lines),
            final(self)@.waiting == split_lines(old(self)@.waiting + bytes@).tail,
            step@.write == plan_gather(old(self)@.burst, 0, old(self)@.window).write,
            step@.next == plan_gather(old(self)@.burst, 0, old(self)@.window).next,
            final(self)@.burst == plan_gather(old(self)@.burst, 0, old(self)@.window).burst,
            final(self)@.window == old(self)@.window,
    {
        let got: Received = self.on_data(bytes);
        let (write, next) = self.gather(0);
        Step { emit: got.events, dropped: got.dropped, write, next }
    }

    /// The step after a read that failed. A read that merely timed out is
    /// no failure: the worker goes on as after a read that delivered
    /// nothing. Any other failure is reported with its text, and the loop
    /// ends.
    pub fn after_read_failure(&mut self, timed_out: bool, reason: String) -> (step: Step)
        ensures
            timed_out ==> {
                &&& step@.emit == Seq::<EventView>::empty()
                &&& step@.write == plan_gather(old(self)@.burst, 0, old(self)@.window).write
                &&& step@.next == plan_gather(old(self)@.burst, 0, old(self)@.window).next
                &&& final(self)@.burst == plan_gather(old(self)@.burst, 0, old(self)@.window).burst
            },
            !timed_out ==> {
                &&& step@.emit == seq![EventView::Error(reason@)]
                &&& step@.write is None
                &&& step@.next == Next::Exit
                &&& final(self)@.burst == old(self)@.burst
            },
            step@.dropped == Seq::<DroppedView>::empty(),
            final(self)@.waiting == old(self)@.waiting,
            final(self)@.window == old(self)@.window,
    {
        let mut emit: Vec<Event> = Vec::new();
        let dropped: Vec<Dropped> = Vec::new();
        match read_failure(timed_out, reason) {
            None => {
                let (write, next) = self.gather(0);
                Step { emit, dropped, write, next }
            },
            Some(event) => {
                proof {
                    assert(event_views(emit@.push(event)) == seq![event@]);
                }
                emit.push(event);
                Step { emit, dropped, write: None, next: Next::Exit }
            },
        }
    }

    /// The step after the caller asked the queue for a command, by
    /// waiting or by polling, and got one or none; `elapsed_ns` is the time
    /// since the grouping window was opened.
    pub fn after_fetch(&mut self, cmd: Option<Command>, elapsed_ns: u128) -> (step: Step)
        ensures
            step@.emit == Seq::<EventView>::empty(),
            step@.dropped == Seq::<DroppedView>::empty(),
            step@.write == plan_fetched(
                old(self)@.burst,
                command_view(cmd),
                elapsed_ns as nat,
                old(self)@.window,
            ).write,
            step@.next == plan_fetched(
                old(self)@.burst,
                command_view(cmd),
                elapsed_ns as nat,
                old(self)@.window,
            ).next,
            final(self)@.burst == plan_fetched(
                old(self)@.burst,
                command_view(cmd),
                elapsed_ns as nat,
                old(self)@.window,
            ).burst,
            final(self)@.waiting == old(self)@.waiting,
            final(self)@.window == old(self)@.window,
    {
        let emit: Vec<Event> = Vec::new();
        let dropped: Vec<Dropped> = Vec::new();
        match self.accept(cmd) {
            Taken::More => {
                let (write, next) = self.gather(elapsed_ns);
                Step { emit, dropped, write, next }
            },
            Taken::Done => Step { emit, dropped, write: self.take_burst(), next: Next::Read },
            Taken::Shutdown => Step { emit, dropped, write: None, next: Next::Exit },
        }
    }
}

/// The burst after the worker, starting with an empty burst, has taken
/// the first `k` commands of a list.
pub open spec fn gathered(cmds: Seq<CommandView>, k: nat) -> Seq<u8>
    decreases k,
{
    if k == 0 || k > cmds.len() {
        Seq::empty()
    } else {
        burst_after(gathered(cmds, (k - 1) as nat), Some(cmds[k - 1]))
    }
}

/// Whether a list holds commands to send only, and no shutdown.
pub open spec fn all_to_send(cmds: Seq<CommandView>) -> bool {
    forall|i: int| 0 <= i < cmds.len() ==> !(#[trigger] cmds[i] is Shutdown)
}

/// Every command to send puts at least two bytes on the wire: a channel
/// digit and the terminator.
pub proof fn lemma_command_line_len(cmd: CommandView)
    requires
        !(cmd is Shutdown),
    ensures
        command_line(cmd).len() >= 2,
{
    match cmd {
        CommandView::SendFrame(ch, frame) => {
            crate::roundtrip::lemma_dec_text_digits(ch as nat);
        },
        CommandView::SendRaw(ch, text) => {
            crate::roundtrip::lemma_dec_text_digits(ch as nat);
        },
        CommandView::Shutdown => {},
    }
}

/// The burst grows with every command taken, and what was taken first
/// stays first.
pub proof fn lemma_gathered_grows(cmds: Seq<CommandView>, k: nat)
    requires
        all_to_send(cmds),
        k <= cmds.len(),
    ensures
        gathered(cmds, k).len() >= 2 * k,
        k >= 1 ==> command_line(cmds[0]).is_prefix_of(gathered(cmds, k)),
    decreases k,
{
    if k >= 1 {
        lemma_gathered_grows(cmds, (k - 1) as nat);
        lemma_command_line_len(cmds[k - 1]);
        if k == 1 {
            assert(gathered(cmds, 1) == command_line(cmds[0]));
        }
    }
}

/// What was gathered stays where it is: the line of each command taken
/// follows the lines of the commands taken before it, in every later
/// burst.
pub proof fn lemma_gathered_holds(cmds: Seq<CommandView>, k: nat, j: nat)
    requires
        all_to_send(cmds),
        k < j <= cmds.len(),
    ensures
        (gathered(cmds, k) + command_line(cmds[k as int])).is_prefix_of(gathered(cmds, j)),
    decreases j,
{
    if j == k + 1 {
        assert(gathered(cmds, j) == gathered(cmds, k) + command_line(cmds[k as int]));
    } else {
        lemma_gathered_holds(cmds, k, (j - 1) as nat);
        assert(gathered(cmds, j) == gathered(cmds, (j - 1) as nat) + command_line(cmds[j - 1]));
    }
}

/// With a command in the burst the worker does not wait and does not sit
/// on the burst: the step after a command to send is to poll or to write.
/// It polls only while the grouping window is open and the burst is under
/// the ceiling, and once the window has run out it writes all that was
/// gathered, the new command with it, and goes back to reading.
pub proof fn lemma_pending_is_written(
    burst: Seq<u8>,
    cmd: CommandView,
    elapsed: nat,
    window: nat,
)
    requires
        !(cmd is Shutdown),
    ensures
        ({
            let plan = plan_fetched(burst, Some(cmd), elapsed, window);
            let all = burst + command_line(cmd);
            &&& plan.next == Next::Poll || plan.next == Next::Read
            &&& plan.next == Next::Poll <==> elapsed <= window && all.len() <= BURST_CEILING
            &&& plan.next == Next::Poll ==> plan.write is None && plan.burst == all
            &&& plan.next == Next::Read ==> plan.write == Some(all) && plan.burst == Seq::<
                u8,
            >::empty()
        }),
{
    lemma_command_line_len(cmd);
}

/// The step after the worker has taken command `k` of a list into a burst
/// that it began empty, `elapsed` time into the grouping window.
pub open spec fn plan_at(cmds: Seq<CommandView>, k: nat, elapsed: nat, window: nat) -> Plan {
    plan_fetched(gathered(cmds, (k - 1) as nat), Some(cmds[k - 1]), elapsed, window)
}

/// Gathering ends: once 513 commands are in the burst it is over the
/// ceiling, and the burst is written whatever the clock says.
pub proof fn lemma_flush_comes(cmds: Seq<CommandView>, k: nat, elapsed: nat, window: nat)
    requires
        all_to_send(cmds),
        BURST_CEILING / 2 < k <= cmds.len(),
    ensures
        plan_at(cmds, k, elapsed, window).write == Some(gathered(cmds, k)),
        plan_at(cmds, k, elapsed, window).next == Next::Read,
{
    lemma_gathered_grows(cmds, k);
}

/// Gathering ends with the grouping window: the first step that the
/// worker takes after the window has run out writes all that was gathered,
/// whatever came before.
pub proof fn lemma_flush_at_window_end(
    cmds: Seq<CommandView>,
    k: nat,
    elapsed: nat,
    window: nat,
)
    requires
        all_to_send(cmds),
        1 <= k <= cmds.len(),
        elapsed > window,
    ensures
        plan_at(cmds, k, elapsed, window).write == Some(gathered(cmds, k)),
        plan_at(cmds, k, elapsed, window).next == Next::Read,
{
    lemma_pending_is_written(gathered(cmds, (k - 1) as nat), cmds[k - 1], elapsed, window);
}

/// The deadline of a burst while commands keep coming. The grouping
/// window opens when a read has returned, at time `times[0] == 0`; the
/// worker asks for commands from there on, and `times[k]` is the time
/// since the window was opened at which it takes its step after command
/// `k`, for `k` from 1 on. The time that a step takes lies with the
/// caller, and `step` bounds it; the worker prescribes a wait only with an
/// empty burst, for the poll interval at most, so that the poll interval
/// is such a bound where taking a command at once and encoding it are no
/// slower. If the step after command `j` is the first to write, that
/// write is decided no later than one grouping window and one such bound
/// after the window was opened, and after 513 commands at most. It writes
/// all that was gathered: each command taken is in it, in the order of
/// taking. Each of them came after the window was opened, so none waits
/// longer than that.
pub proof fn lemma_flush_deadline(
    cmds: Seq<CommandView>,
    times: Seq<nat>,
    window: nat,
    step: nat,
    j: nat,
)
    requires
        all_to_send(cmds),
        1 <= j <= cmds.len(),
        j < times.len(),
        times[0] == 0,
        forall|k: int| 0 <= k < j ==> #[trigger] times[k + 1] <= times[k] + step,
        forall|k: int|
            1 <= k < j ==> plan_at(cmds, k as nat, #[trigger] times[k], window).write is None,
        plan_at(cmds, j, times[j as int], window).write is Some,
    ensures
        j <= BURST_CEILING / 2 + 1,
        times[j as int] <= window + step,
        plan_at(cmds, j, times[j as int], window).write == Some(gathered(cmds, j)),
        plan_at(cmds, j, times[j as int], window).next == Next::Read,
        forall|k: int|
            0 <= k < j ==> (gathered(cmds, k as nat) + command_line(#[trigger] cmds[k])).is_prefix_of(
                gathered(cmds, j),
            ),
{
    lemma_gathered_grows(cmds, j);
    if j >= 2 {
        let before: nat = (j - 1) as nat;
        lemma_gathered_grows(cmds, before);
        assert(plan_at(cmds, before, times[before as int], window).write is None);
        assert(times[before as int] <= window);
        assert(times[before as int + 1] <= times[before as int] + step);
    } else {
        assert(times[0int + 1] <= times[0int] + step);
    }
    assert forall|k: int| 0 <= k < j implies (gathered(cmds, k as nat) + command_line(
        #[trigger] cmds[k],
    )).is_prefix_of(gathered(cmds, j)) by {
        lemma_gathered_holds(cmds, k as nat, j);
    }
}

} // verus!
