//! What the decoder makes of the encoder's lines.

use crate::decode::{
    decode_frame, decode_line, has_channel_digit, is_frame_letter, letter_is_brs,
    letter_is_ext, letter_is_fd, letter_is_rtr, line_channel, pairs_to_read, payload_pair,
    read_pairs, read_payload, LineView, CHANNELS,
};
use crate::digits::{
    dec_text, hex_digit, hex_number, hex_text, hex_value, pow16, DIGIT_0, DIGIT_9, UPPER_A,
    UPPER_F,
};
use crate::encode::{command_letter, frame_line, id_width, payload_text, LINE_END};
use crate::frame::{dlc_len, len_dlc, FrameView};
use crate::linebuf::{lemma_split_chunks, lemma_split_one_line, split_lines, unterminated};
use crate::message::{CommandView, EventView};
use crate::worker::{gathered, line_event, line_events};
use vstd::prelude::*;

verus! {

/// Whether a byte is a decimal digit or an upper-case hexadecimal digit.
pub open spec fn is_upper_hex(c: u8) -> bool {
    DIGIT_0 <= c <= DIGIT_9 || UPPER_A <= c <= UPPER_F
}

/// A number below ten is written as its one digit.
pub proof fn lemma_dec_text_digits(v: nat)
    ensures
        dec_text(v).len() >= 1,
        v < 10 ==> dec_text(v) == seq![(DIGIT_0 + v) as u8],
        forall|i: int|
            0 <= i < dec_text(v).len() ==> DIGIT_0 <= #[trigger] dec_text(v)[i] <= DIGIT_9,
    decreases v,
{
    if v >= 10 {
        lemma_dec_text_digits(v / 10);
    }
}

/// Hexadecimal text holds hexadecimal digits only, and as many as the width
/// asks for where the number fits in them.
pub proof fn lemma_hex_text_digits(v: nat, width: nat)
    ensures
        hex_text(v, width).len() >= 1,
        hex_text(v, width).len() >= width,
        width >= 1 && v < pow16(width) ==> hex_text(v, width).len() == width,
        forall|i: int|
            0 <= i < hex_text(v, width).len() ==> is_upper_hex(#[trigger] hex_text(v, width)[i]),
    decreases v + width,
{
    if v < 16 && width <= 1 {
    } else {
        let rest: nat = if width == 0 {
            0
        } else {
            (width - 1) as nat
        };
        lemma_hex_text_digits(v / 16, rest);
        if width >= 1 && v < pow16(width) {
            assert(pow16(width) == 16 * pow16(rest));
            assert(pow16(1) == 16) by {
                reveal_with_fuel(pow16, 2);
            }
        }
    }
}

/// Reading hexadecimal text gives back the number that was written,
/// whatever the width.
pub proof fn lemma_hex_text_read_back(v: nat, width: nat)
    ensures
        hex_number(hex_text(v, width)) == Some(v),
    decreases v + width,
{
    let s = hex_text(v, width);
    if v < 16 && width <= 1 {
        assert(s.drop_last() == Seq::<u8>::empty());
        assert(hex_number(s.drop_last()) == Some(0nat));
    } else {
        let rest: nat = if width == 0 {
            0
        } else {
            (width - 1) as nat
        };
        lemma_hex_text_read_back(v / 16, rest);
        assert(s.drop_last() == hex_text(v / 16, rest));
        assert(s.last() == hex_digit(v % 16));
    }
}

/// A byte is written as two digits: the high and the low half.
pub proof fn lemma_hex_text_byte(b: u8)
    ensures
        hex_text(b as nat, 2) == seq![hex_digit(b as nat / 16), hex_digit(b as nat % 16)],
{
    reveal_with_fuel(hex_text, 3);
    assert(hex_text(b as nat / 16, 1) == seq![hex_digit(b as nat / 16)]);
}

/// A payload text holds two upper-case hexadecimal digits for each byte.
pub proof fn lemma_payload_text_digits(data: Seq<u8>)
    ensures
        payload_text(data).len() == 2 * data.len(),
        forall|i: int|
            0 <= i < payload_text(data).len() ==> is_upper_hex(#[trigger] payload_text(data)[i]),
    decreases data.len(),
{
    if data.len() > 0 {
        lemma_payload_text_digits(data.drop_last());
        lemma_hex_text_byte(data.last());
    }
}

/// The pairs read from a text are those of any longer text that starts
/// with it.
pub proof fn lemma_read_pairs_prefix(text: Seq<u8>, more: Seq<u8>, pairs: nat)
    requires
        2 * pairs <= text.len(),
    ensures
        read_pairs(text + more, pairs) == read_pairs(text, pairs),
    decreases pairs,
{
    if pairs > 0 {
        lemma_read_pairs_prefix(text, more, (pairs - 1) as nat);
        assert((text + more)[2 * (pairs - 1)] == text[2 * (pairs - 1)]);
        assert((text + more)[2 * (pairs - 1) + 1] == text[2 * (pairs - 1) + 1]);
    }
}

/// Reading all pairs of a payload text gives back the payload.
pub proof fn lemma_payload_text_read_back(data: Seq<u8>)
    ensures
        read_pairs(payload_text(data), data.len()) == data,
    decreases data.len(),
{
    if data.len() > 0 {
        let head = data.drop_last();
        let b = data.last();
        let n = data.len();
        lemma_payload_text_read_back(head);
        lemma_payload_text_digits(head);
        lemma_hex_text_byte(b);
        let text = payload_text(data);
        lemma_read_pairs_prefix(payload_text(head), hex_text(b as nat, 2), head.len());
        assert(text[2 * (n - 1)] == hex_digit(b as nat / 16));
        assert(text[2 * (n - 1) + 1] == hex_digit(b as nat % 16));
        assert(payload_pair(text, n - 1) == Some(b));
        assert(read_pairs(text, n) == head.push(b));
        assert(head.push(b) == data);
    }
}

/// The frame that comes back when a frame has gone over the wire. The wire
/// carries no payload for a remote frame, does not mark an FD frame as
/// remote, and shows bit rate switching on FD frames only.
pub open spec fn as_received(f: FrameView) -> FrameView {
    FrameView {
        id: f.id,
        data: if f.rtr {
            Seq::empty()
        } else {
            f.data
        },
        ext: f.ext,
        rtr: f.rtr && !f.fd,
        fd: f.fd,
        brs: f.brs && f.fd,
    }
}

/// Whether a frame on a channel can go over the wire and come back: the
/// channel has one digit that the decoder takes for a channel, the
/// identifier fits the digits that its width gives it, and the payload
/// fits the largest data length code.
pub open spec fn fits_wire(ch: u8, f: FrameView) -> bool {
    &&& ch < CHANNELS
    &&& !f.ext ==> f.id <= 0xFFF
    &&& f.data.len() <= 64
}

/// A valid frame fits the wire on each of the four channels.
pub proof fn lemma_valid_fits_wire(ch: u8, f: FrameView)
    requires
        ch < CHANNELS,
        f.valid(),
    ensures
        fits_wire(ch, f),
        !f.fd || !f.rtr ==> as_received(f) == f,
{
    if !f.fd || !f.rtr {
        assert(as_received(f).data =~= f.data);
    }
}

/// An encoded frame ends with the terminator and holds it nowhere else.
pub proof fn lemma_frame_line_one_terminator(ch: u8, f: FrameView)
    ensures
        frame_line(ch, f).len() >= 1,
        frame_line(ch, f).last() == LINE_END,
        forall|i: int|
            0 <= i < frame_line(ch, f).len() - 1 ==> #[trigger] frame_line(ch, f)[i] != LINE_END,
{
    lemma_dec_text_digits(ch as nat);
    lemma_hex_text_digits(f.id as nat, id_width(f.ext));
    lemma_payload_text_digits(f.data);
    let a = dec_text(ch as nat).push(command_letter(f));
    let b = hex_text(f.id as nat, id_width(f.ext)).push(hex_digit(len_dlc(f.data.len())));
    let p = if f.rtr {
        Seq::<u8>::empty()
    } else {
        payload_text(f.data)
    };
    let line = frame_line(ch, f);
    assert(line == a + b + p.push(LINE_END));
    assert forall|i: int| 0 <= i < line.len() - 1 implies #[trigger] line[i] != LINE_END by {
        if i < a.len() {
            assert(line[i] == a[i]);
            if i < a.len() - 1 {
                assert(a[i] == dec_text(ch as nat)[i]);
            }
        } else if i < a.len() + b.len() {
            assert(line[i] == b[i - a.len()]);
            if i - a.len() < b.len() - 1 {
                assert(b[i - a.len()] == hex_text(f.id as nat, id_width(f.ext))[i - a.len()]);
            }
        } else {
            assert(line[i] == p[i - a.len() - b.len()]);
        }
    }
}

/// Decoding the line of a frame, its terminator taken off, gives the
/// channel and the frame as received: the decoder undoes the encoder for
/// every frame that fits the wire.
pub proof fn lemma_decode_encoded_frame(ch: u8, f: FrameView)
    requires
        fits_wire(ch, f),
    ensures
        decode_line(frame_line(ch, f).drop_last()) == LineView::Frame(ch, as_received(f)),
{
    let width = id_width(f.ext);
    let letter = command_letter(f);
    let id_text = hex_text(f.id as nat, width);
    let dlc = len_dlc(f.data.len());
    let p = if f.rtr {
        Seq::<u8>::empty()
    } else {
        payload_text(f.data)
    };
    let a = dec_text(ch as nat).push(letter);
    let b = id_text.push(hex_digit(dlc));
    let line = frame_line(ch, f).drop_last();
    lemma_dec_text_digits(ch as nat);
    lemma_hex_text_digits(f.id as nat, width);
    lemma_hex_text_read_back(f.id as nat, width);
    lemma_payload_text_digits(f.data);
    assert(pow16(3) == 0x1000 && pow16(8) == 0x1_0000_0000) by {
        reveal_with_fuel(pow16, 9);
    }
    assert(id_text.len() == width);
    assert(line == a + b + p);
    assert(a == seq![(DIGIT_0 + ch) as u8, letter]);
    assert(line[0] == (DIGIT_0 + ch) as u8);
    assert(line[1] == letter);
    assert(has_channel_digit(line));
    assert(line_channel(line) == ch);
    assert(is_frame_letter(letter));
    let content = line.subrange(2, line.len() as int);
    assert(content == b + p);
    assert(content.subrange(0, width as int) == id_text);
    assert(content[width as int] == hex_digit(dlc));
    assert(hex_value(hex_digit(dlc)) == Some(dlc));
    let rest = content.subrange(width as int + 1, content.len() as int);
    assert(rest == p);
    assert(letter_is_ext(letter) == f.ext);
    assert(letter_is_fd(letter) == f.fd);
    assert(letter_is_brs(letter) == (f.brs && f.fd));
    assert(letter_is_rtr(letter) == (f.rtr && !f.fd));
    if f.rtr {
        assert(read_pairs(p, 0) == Seq::<u8>::empty());
        assert(pairs_to_read(p.len(), dlc_len(dlc)) == 0);
    } else {
        lemma_payload_text_read_back(f.data);
        assert(pairs_to_read(p.len(), dlc_len(dlc)) == f.data.len());
    }
    assert(read_payload(rest, dlc_len(dlc)) == as_received(f).data);
    let got = decode_frame(letter, content);
    assert(got is Ok);
    assert(got->Ok_0.data == as_received(f).data);
    assert(got->Ok_0 == as_received(f));
}

/// The events of two lists of lines, one after the other, are the events
/// of the lists joined.
pub proof fn lemma_line_events_concat(first: Seq<Seq<u8>>, second: Seq<Seq<u8>>)
    ensures
        line_events(first + second) == line_events(first) + line_events(second),
    decreases second.len(),
{
    if second.len() == 0 {
        assert(first + second == first);
    } else {
        lemma_line_events_concat(first, second.drop_last());
        assert((first + second).drop_last() == first + second.drop_last());
    }
}

/// Where the serial line cuts its bytes into deliveries does not matter:
/// the frames received from two deliveries, one after the other, are the
/// frames received from the two as one.
pub proof fn lemma_events_chunks(waiting: Seq<u8>, a: Seq<u8>, b: Seq<u8>)
    ensures
        line_events(split_lines(waiting + (a + b)).lines) == line_events(
            split_lines(waiting + a).lines,
        ) + line_events(split_lines(split_lines(waiting + a).tail + b).lines),
        split_lines(waiting + (a + b)).tail == split_lines(
            split_lines(waiting + a).tail + b,
        ).tail,
{
    assert(waiting + (a + b) == (waiting + a) + b);
    lemma_split_chunks(waiting + a, b);
    lemma_line_events_concat(
        split_lines(waiting + a).lines,
        split_lines(split_lines(waiting + a).tail + b).lines,
    );
}

/// The lines of a list of frames, each on its channel, one after the
/// other.
pub open spec fn frame_lines(frames: Seq<(u8, FrameView)>) -> Seq<u8>
    decreases frames.len(),
{
    if frames.len() == 0 {
        Seq::empty()
    } else {
        frame_lines(frames.drop_last()) + frame_line(frames.last().0, frames.last().1)
    }
}

/// The events that report a list of frames as received, in order.
pub open spec fn received_events(frames: Seq<(u8, FrameView)>) -> Seq<EventView> {
    frames.map_values(|p: (u8, FrameView)| EventView::FrameReceived(p.0, as_received(p.1)))
}

/// A burst of frames that is written out and read back gives the frames
/// as received, each on its channel and in the order of sending, and
/// leaves nothing waiting.
pub proof fn lemma_burst_read_back(frames: Seq<(u8, FrameView)>)
    requires
        forall|i: int| 0 <= i < frames.len() ==> fits_wire(#[trigger] frames[i].0, frames[i].1),
    ensures
        line_events(split_lines(frame_lines(frames)).lines) == received_events(frames),
        split_lines(frame_lines(frames)).tail == Seq::<u8>::empty(),
    decreases frames.len(),
{
    if frames.len() > 0 {
        let head = frames.drop_last();
        let (ch, f) = frames.last();
        let line = frame_line(ch, f);
        assert(fits_wire(frames[frames.len() - 1].0, frames[frames.len() - 1].1));
        assert forall|i: int| 0 <= i < head.len() implies fits_wire(
            #[trigger] head[i].0,
            head[i].1,
        ) by {
            assert(fits_wire(frames[i].0, frames[i].1));
        }
        lemma_burst_read_back(head);
        lemma_split_chunks(frame_lines(head), line);
        assert(Seq::<u8>::empty() + line == line);
        lemma_frame_line_one_terminator(ch, f);
        assert(line.drop_last().push(LINE_END) == line);
        assert(unterminated(line.drop_last())) by {
            assert forall|i: int| 0 <= i < line.drop_last().len() implies line.drop_last()[i]
                != LINE_END by {
                assert(line.drop_last()[i] == line[i]);
            }
        }
        lemma_split_one_line(line.drop_last());
        lemma_decode_encoded_frame(ch, f);
        let done = split_lines(frame_lines(head)).lines;
        lemma_line_events_concat(done, seq![line.drop_last()]);
        let one = seq![line.drop_last()];
        assert(one.drop_last() == Seq::<Seq<u8>>::empty());
        assert(line_events(one.drop_last()) == Seq::<EventView>::empty());
        assert(line_event(one.last()) == Some(EventView::FrameReceived(ch, as_received(f))));
        assert(line_events(seq![line.drop_last()]) == seq![
            EventView::FrameReceived(ch, as_received(f)),
        ]);
        assert(received_events(frames) == received_events(head) + seq![
            EventView::FrameReceived(ch, as_received(f)),
        ]);
    }
}

/// The commands that send a list of frames, each on its channel.
pub open spec fn send_commands(frames: Seq<(u8, FrameView)>) -> Seq<CommandView> {
    frames.map_values(|p: (u8, FrameView)| CommandView::SendFrame(p.0, p.1))
}

/// The burst that a worker gathers from commands to send frames holds the
/// lines of the frames, one after the other.
pub proof fn lemma_gathered_frames(frames: Seq<(u8, FrameView)>, k: nat)
    requires
        k <= frames.len(),
    ensures
        gathered(send_commands(frames), k) == frame_lines(frames.take(k as int)),
    decreases k,
{
    if k > 0 {
        lemma_gathered_frames(frames, (k - 1) as nat);
        assert(frames.take(k as int).drop_last() == frames.take(k - 1));
        assert(frames.take(k as int).last() == frames[k - 1]);
    }
}

/// What one worker gathers from commands to send frames, another worker
/// reads as those frames received: each on its channel, in the order of
/// the commands, with nothing left waiting.
pub proof fn lemma_sent_frames_are_received(frames: Seq<(u8, FrameView)>)
    requires
        forall|i: int| 0 <= i < frames.len() ==> fits_wire(#[trigger] frames[i].0, frames[i].1),
    ensures
        line_events(split_lines(gathered(send_commands(frames), frames.len())).lines)
            == received_events(frames),
        split_lines(gathered(send_commands(frames), frames.len())).tail == Seq::<u8>::empty(),
{
    lemma_gathered_frames(frames, frames.len());
    assert(frames.take(frames.len() as int) == frames);
    lemma_burst_read_back(frames);
}

} // verus!
