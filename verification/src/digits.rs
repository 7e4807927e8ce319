//! ASCII digits: numbers written as upper-case hexadecimal or decimal text,
//! and hexadecimal text read back.

use vstd::prelude::*;

verus! {

/// `0`, the first decimal digit.
pub const DIGIT_0: u8 = 0x30;

/// `9`, the last decimal digit.
pub const DIGIT_9: u8 = 0x39;

/// `A`, the upper-case digit for ten.
pub const UPPER_A: u8 = 0x41;

/// `F`, the upper-case digit for fifteen.
pub const UPPER_F: u8 = 0x46;

/// `a`, the lower-case digit for ten.
pub const LOWER_A: u8 = 0x61;

/// `f`, the lower-case digit for fifteen.
pub const LOWER_F: u8 = 0x66;

/// The ASCII upper-case hexadecimal digit for a value below 16.
pub open spec fn hex_digit(n: nat) -> u8 {
    if n < 10 {
        (DIGIT_0 + n) as u8
    } else {
        (UPPER_A + (n - 10)) as u8
    }
}

/// The value of an ASCII hexadecimal digit of either case.
pub open spec fn hex_value(c: u8) -> Option<nat> {
    if DIGIT_0 <= c <= DIGIT_9 {
        Some((c - DIGIT_0) as nat)
    } else if UPPER_A <= c <= UPPER_F {
        Some((c - UPPER_A + 10) as nat)
    } else if LOWER_A <= c <= LOWER_F {
        Some((c - LOWER_A + 10) as nat)
    } else {
        None
    }
}

/// A number in upper-case hexadecimal, padded with zeros on the left to at
/// least `width` digits; a number that needs more digits gets them.
pub open spec fn hex_text(v: nat, width: nat) -> Seq<u8>
    decreases v + width,
{
    if v < 16 && width <= 1 {
        seq![hex_digit(v)]
    } else {
        hex_text(
            v / 16,
            if width == 0 {
                0
            } else {
                (width - 1) as nat
            },
        ).push(hex_digit(v % 16))
    }
}

/// The number that a text of hexadecimal digits stands for, most significant
/// digit first; nothing where a byte is not such a digit. The empty text
/// stands for zero.
pub open spec fn hex_number(s: Seq<u8>) -> Option<nat>
    decreases s.len(),
{
    if s.len() == 0 {
        Some(0)
    } else {
        match (hex_number(s.drop_last()), hex_value(s.last())) {
            (Some(high), Some(low)) => Some(16 * high + low),
            _ => None,
        }
    }
}

/// A number in decimal, without leading zeros.
pub open spec fn dec_text(v: nat) -> Seq<u8>
    decreases v,
{
    if v < 10 {
        seq![(DIGIT_0 + v) as u8]
    } else {
        dec_text(v / 10).push((DIGIT_0 + v % 10) as u8)
    }
}

/// The characters of an ASCII text.
pub open spec fn ascii_chars(bytes: Seq<u8>) -> Seq<char> {
    Seq::new(bytes.len(), |i: int| bytes[i] as char)
}

/// The upper-case hexadecimal digit for the low four bits of a value.
pub fn hex_digit_of(n: u8) -> (c: u8)
    ensures
        c == hex_digit((n % 16) as nat),
        hex_value(c) == Some((n % 16) as nat),
{
    let low: u8 = n % 16;
    if low < 10 {
        DIGIT_0 + low
    } else {
        UPPER_A + (low - 10)
    }
}

/// The value of a hexadecimal digit of either case, if the byte is one.
pub fn hex_value_of(c: u8) -> (v: Option<u8>)
    ensures
        match v {
            Some(n) => hex_value(c) == Some(n as nat) && n < 16,
            None => hex_value(c).is_none(),
        },
{
    if DIGIT_0 <= c && c <= DIGIT_9 {
        Some(c - DIGIT_0)
    } else if UPPER_A <= c && c <= UPPER_F {
        Some(c - UPPER_A + 10)
    } else if LOWER_A <= c && c <= LOWER_F {
        Some(c - LOWER_A + 10)
    } else {
        None
    }
}

/// Appends a number in upper-case hexadecimal, at least `width` digits wide.
pub fn push_hex(buf: &mut Vec<u8>, value: u32, width: u8)
    ensures
        final(buf)@ == old(buf)@ + hex_text(value as nat, width as nat),
    decreases value + width,
{
    if value < 16 && width <= 1 {
        buf.push(hex_digit_of(value as u8));
    } else {
        let rest: u8 = if width == 0 {
            0
        } else {
            width - 1
        };
        push_hex(buf, value / 16, rest);
        buf.push(hex_digit_of((value % 16) as u8));
    }
}

/// Appends a number in decimal.
pub fn push_dec(buf: &mut Vec<u8>, value: u32)
    ensures
        final(buf)@ == old(buf)@ + dec_text(value as nat),
    decreases value,
{
    if value < 10 {
        buf.push(DIGIT_0 + value as u8);
    } else {
        push_dec(buf, value / 10);
        buf.push(DIGIT_0 + (value % 10) as u8);
    }
}

/// Reads a text of hexadecimal digits as a number. There is none where a
/// byte is no such digit, and none where the number does not fit 32 bits.
pub fn parse_hex(text: &[u8]) -> (number: Option<u32>)
    ensures
        match number {
            Some(v) => hex_number(text@) == Some(v as nat),
            None => hex_number(text@).is_none() || hex_number(text@).unwrap() > u32::MAX,
        },
{
    let mut acc: u32 = 0;
    let mut i: usize = 0;
    while i < text.len()
        invariant
            i <= text@.len(),
            hex_number(text@.subrange(0, i as int)) == Some(acc as nat),
        decreases text@.len() - i,
    {
        proof {
            assert(text@.subrange(0, i + 1).drop_last() == text@.subrange(0, i as int));
        }
        match hex_value_of(text[i]) {
            Some(d) => {
                let next: u64 = acc as u64 * 16 + d as u64;
                if next > u32::MAX as u64 {
                    proof {
                        lemma_hex_number_prefix(text@, i + 1);
                    }
                    return None;
                }
                acc = next as u32;
            },
            None => {
                proof {
                    lemma_hex_number_prefix(text@, i + 1);
                }
                return None;
            },
        }
        i = i + 1;
    }
    proof {
        assert(text@.subrange(0, i as int) == text@);
    }
    Some(acc)
}

/// Sixteen to the power of `n`.
pub open spec fn pow16(n: nat) -> nat
    decreases n,
{
    if n == 0 {
        1
    } else {
        16 * pow16((n - 1) as nat)
    }
}

/// A longer text of hexadecimal digits stands for no smaller number than
/// any text that it starts with, and has no reading once such a text has
/// none.
pub proof fn lemma_hex_number_prefix(s: Seq<u8>, n: int)
    requires
        0 <= n <= s.len(),
    ensures
        hex_number(s.subrange(0, n)).is_none() ==> hex_number(s).is_none(),
        hex_number(s) is Some ==> hex_number(s).unwrap() >= hex_number(s.subrange(0, n)).unwrap(),
    decreases s.len() - n,
{
    if n < s.len() {
        assert(s.subrange(0, n + 1).drop_last() == s.subrange(0, n));
        lemma_hex_number_prefix(s, n + 1);
    } else {
        assert(s.subrange(0, n) == s);
    }
}

/// A text of `n` hexadecimal digits stands for a number below sixteen to
/// the power of `n`.
pub proof fn lemma_hex_number_bound(s: Seq<u8>)
    ensures
        hex_number(s) is Some ==> hex_number(s).unwrap() < pow16(s.len()),
    decreases s.len(),
{
    if s.len() > 0 {
        lemma_hex_number_bound(s.drop_last());
    }
}

} // verus!
