//! The partial-line buffer: bytes come in as the serial line delivers them,
//! complete lines go out, and what follows the last terminator waits for
//! the next delivery.

use crate::encode::LINE_END;
use vstd::prelude::*;

verus! {

/// A byte stream cut at its terminators.
pub struct Split {
    /// The complete lines in order, each without its terminator.
    pub lines: Seq<Seq<u8>>,
    /// What follows the last terminator.
    pub tail: Seq<u8>,
}

/// Cuts a byte stream at its terminators. Each terminator ends the line
/// that the bytes since the one before it make up.
pub open spec fn split_lines(s: Seq<u8>) -> Split
    decreases s.len(),
{
    if s.len() == 0 {
        Split { lines: Seq::empty(), tail: Seq::empty() }
    } else {
        let before = split_lines(s.drop_last());
        if s.last() == LINE_END {
            Split { lines: before.lines.push(before.tail), tail: Seq::empty() }
        } else {
            Split { lines: before.lines, tail: before.tail.push(s.last()) }
        }
    }
}

/// Whether a text holds no terminator.
pub open spec fn unterminated(s: Seq<u8>) -> bool {
    forall|i: int| 0 <= i < s.len() ==> s[i] != LINE_END
}

/// Lines put back into one stream, each with its terminator.
pub open spec fn join_lines(lines: Seq<Seq<u8>>) -> Seq<u8>
    decreases lines.len(),
{
    if lines.len() == 0 {
        Seq::empty()
    } else {
        join_lines(lines.drop_last()) + lines.last().push(LINE_END)
    }
}

/// The views of a list of lines, in order.
pub open spec fn line_views(lines: Seq<Vec<u8>>) -> Seq<Seq<u8>> {
    lines.map_values(|l: Vec<u8>| l@)
}

/// A text without a terminator is no line yet: all of it waits.
pub proof fn lemma_split_unterminated(s: Seq<u8>)
    requires
        unterminated(s),
    ensures
        split_lines(s).lines == Seq::<Seq<u8>>::empty(),
        split_lines(s).tail == s,
    decreases s.len(),
{
    if s.len() > 0 {
        lemma_split_unterminated(s.drop_last());
        assert(s.drop_last().push(s.last()) == s);
    }
}

/// Cutting loses and invents nothing: the lines with their terminators,
/// followed by the tail, are the stream, and neither a line nor the tail
/// holds a terminator.
pub proof fn lemma_split_rejoin(s: Seq<u8>)
    ensures
        join_lines(split_lines(s).lines) + split_lines(s).tail == s,
        unterminated(split_lines(s).tail),
        forall|k: int|
            0 <= k < split_lines(s).lines.len() ==> unterminated(#[trigger] split_lines(s).lines[k]),
    decreases s.len(),
{
    if s.len() > 0 {
        let before = split_lines(s.drop_last());
        lemma_split_rejoin(s.drop_last());
        assert(s.drop_last().push(s.last()) == s);
        if s.last() == LINE_END {
            let lines = before.lines.push(before.tail);
            assert(lines.drop_last() == before.lines);
            assert(join_lines(lines) == join_lines(before.lines) + before.tail.push(LINE_END));
            assert(join_lines(lines) + Seq::<u8>::empty() == s);
        } else {
            assert(join_lines(before.lines) + before.tail.push(s.last()) == s);
        }
    }
}

/// Where a stream is cut in two for delivery does not matter: the lines of
/// the first part, followed by the lines of what the first part left
/// waiting together with the second part, are the lines of the whole, and
/// the same bytes wait at the end.
pub proof fn lemma_split_chunks(a: Seq<u8>, b: Seq<u8>)
    ensures
        split_lines(a + b).lines == split_lines(a).lines + split_lines(
            split_lines(a).tail + b,
        ).lines,
        split_lines(a + b).tail == split_lines(split_lines(a).tail + b).tail,
    decreases b.len(),
{
    let first = split_lines(a);
    if b.len() == 0 {
        assert(a + b == a);
        assert(first.tail + b == first.tail);
        lemma_split_rejoin(a);
        lemma_split_unterminated(first.tail);
        assert(first.lines + Seq::<Seq<u8>>::empty() == first.lines);
    } else {
        lemma_split_chunks(a, b.drop_last());
        assert((a + b).drop_last() == a + b.drop_last());
        assert((first.tail + b).drop_last() == first.tail + b.drop_last());
        let mid = split_lines(first.tail + b.drop_last());
        if b.last() == LINE_END {
            assert(first.lines + mid.lines.push(mid.tail) == (first.lines + mid.lines).push(
                mid.tail,
            ));
        }
    }
}

/// A text without a terminator, followed by one, is one line with nothing
/// left waiting.
pub proof fn lemma_split_one_line(line: Seq<u8>)
    requires
        unterminated(line),
    ensures
        split_lines(line.push(LINE_END)).lines == seq![line],
        split_lines(line.push(LINE_END)).tail == Seq::<u8>::empty(),
{
    lemma_split_unterminated(line);
    assert(line.push(LINE_END).drop_last() == line);
    assert(Seq::<Seq<u8>>::empty().push(line) == seq![line]);
}

/// The bytes that wait for their terminator.
pub struct LineBuffer {
    pending: Vec<u8>,
}

impl View for LineBuffer {
    type V = Seq<u8>;

    closed spec fn view(&self) -> Seq<u8> {
        self.pending@
    }
}

impl LineBuffer {
    /// No terminator ever waits: a terminator ends a line at once.
    #[verifier::type_invariant]
    spec fn no_line_waits(self) -> bool {
        unterminated(self.pending@)
    }

    /// A buffer in which nothing waits.
    pub fn new() -> (buffer: Self)
        ensures
            buffer@ == Seq::<u8>::empty(),
    {
        LineBuffer { pending: Vec::new() }
    }

    /// Number of bytes that wait. None of them is a terminator.
    pub fn len(&self) -> (n: usize)
        ensures
            n == self@.len(),
            unterminated(self@),
    {
        proof {
            use_type_invariant(self);
        }
        self.pending.len()
    }

    /// Takes in what one read delivered and hands out the lines that it
    /// completed, each without its terminator. The first of them starts
    /// with the bytes that waited; what follows the last terminator waits
    /// on.
    pub fn push_bytes(&mut self, bytes: &[u8]) -> (lines: Vec<Vec<u8>>)
        ensures
            line_views(lines@) == split_lines(old(self)@ + bytes@).lines,
            final(self)@ == split_lines(old(self)@ + bytes@).tail,
    {
        proof {
            use_type_invariant(&*self);
            lemma_split_unterminated(self.pending@);
            assert(self.pending@ + bytes@.subrange(0, 0) == self.pending@);
        }
        let mut waiting: Vec<u8> = Vec::new();
        std::mem::swap(&mut waiting, &mut self.pending);
        let mut lines: Vec<Vec<u8>> = Vec::new();
        let mut i: usize = 0;
        while i < bytes.len()
            invariant
                i <= bytes@.len(),
                unterminated(waiting@),
                line_views(lines@) == split_lines(old(self)@ + bytes@.subrange(0, i as int)).lines,
                waiting@ == split_lines(old(self)@ + bytes@.subrange(0, i as int)).tail,
            decreases bytes@.len() - i,
        {
            let b: u8 = bytes[i];
            proof {
                let next = old(self)@ + bytes@.subrange(0, i + 1);
                assert(next.drop_last() == old(self)@ + bytes@.subrange(0, i as int));
                assert(next.last() == b);
                assert(line_views(lines@.push(waiting)) == line_views(lines@).push(waiting@));
            }
            if b == LINE_END {
                lines.push(waiting);
                waiting = Vec::new();
            } else {
                waiting.push(b);
            }
            i = i + 1;
        }
        proof {
            assert(bytes@.subrange(0, i as int) == bytes@);
        }
        self.pending = waiting;
        lines
    }
}

} // verus!
