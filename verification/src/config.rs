//! Configuration texts of the line protocol: bit rates, sample points, and
//! opening and closing a channel.

use crate::digits::{ascii_chars, dec_text, DIGIT_0};
use crate::message::SlcanError;
use vstd::prelude::*;
use vstd::string::StringExecFns;

verus! {

/// Smallest data bit rate that the device takes, in megabits per second.
pub const MIN_DATA_MEGABITS: u32 = 1;

/// Largest data bit rate that the device takes, in megabits per second.
pub const MAX_DATA_MEGABITS: u32 = 15;

/// The index of a canonical bit rate, for the nine that have one.
pub open spec fn bitrate_code(bitrate: u32) -> Option<u8> {
    if bitrate == 10_000 {
        Some(0u8)
    } else if bitrate == 20_000 {
        Some(1u8)
    } else if bitrate == 50_000 {
        Some(2u8)
    } else if bitrate == 100_000 {
        Some(3u8)
    } else if bitrate == 125_000 {
        Some(4u8)
    } else if bitrate == 250_000 {
        Some(5u8)
    } else if bitrate == 500_000 {
        Some(6u8)
    } else if bitrate == 800_000 {
        Some(7u8)
    } else if bitrate == 1_000_000 {
        Some(8u8)
    } else {
        None
    }
}

/// A letter followed by a number in decimal.
pub open spec fn lettered(letter: char, number: nat) -> Seq<char> {
    seq![letter] + ascii_chars(dec_text(number))
}

/// The text that sets the nominal bit rate: `S` and the index for a
/// canonical bit rate, `y` and the bit rate itself for any other.
pub open spec fn bitrate_text(bitrate: u32) -> Seq<char> {
    match bitrate_code(bitrate) {
        Some(code) => lettered('S', code as nat),
        None => lettered('y', bitrate as nat),
    }
}

/// The data bit rates that the device takes, given as a number of whole
/// megabits per second: 1 to 15.
pub open spec fn is_data_bitrate(megabits: u32) -> bool {
    MIN_DATA_MEGABITS <= megabits <= MAX_DATA_MEGABITS
}

/// The text that sets the data bit rate: `Y` and the number of megabits
/// per second.
pub open spec fn data_bitrate_text(megabits: u32) -> Seq<char> {
    lettered('Y', megabits as nat)
}

/// The texts that set the sample points, each in tenths of a percent: `p`
/// for the nominal one, `P` for the data one, the nominal one first; none
/// for a sample point that is not given.
pub open spec fn sample_point_texts(nominal: Option<u32>, data: Option<u32>) -> Seq<Seq<char>> {
    (match nominal {
        Some(n) => seq![lettered('p', n as nat)],
        None => Seq::empty(),
    }) + (match data {
        Some(d) => seq![lettered('P', d as nat)],
        None => Seq::empty(),
    })
}

/// The text that opens a channel.
pub open spec fn open_text() -> Seq<char> {
    seq!['O']
}

/// The text that closes a channel.
pub open spec fn close_text() -> Seq<char> {
    seq!['C']
}

/// The views of a list of texts, in order.
pub open spec fn text_views(texts: Seq<String>) -> Seq<Seq<char>> {
    texts.map_values(|t: String| t@)
}

/// The text of one decimal digit.
fn digit_str(d: u32) -> (text: &'static str)
    requires
        d < 10,
    ensures
        text@ == seq![(DIGIT_0 + d) as u8 as char],
{
    proof {
        reveal_strlit("0");
        reveal_strlit("1");
        reveal_strlit("2");
        reveal_strlit("3");
        reveal_strlit("4");
        reveal_strlit("5");
        reveal_strlit("6");
        reveal_strlit("7");
        reveal_strlit("8");
        reveal_strlit("9");
    }
    if d == 0 {
        "0"
    } else if d == 1 {
        "1"
    } else if d == 2 {
        "2"
    } else if d == 3 {
        "3"
    } else if d == 4 {
        "4"
    } else if d == 5 {
        "5"
    } else if d == 6 {
        "6"
    } else if d == 7 {
        "7"
    } else if d == 8 {
        "8"
    } else {
        "9"
    }
}

/// Appends a number in decimal to a text.
pub fn append_dec(text: &mut String, value: u32)
    ensures
        final(text)@ == old(text)@ + ascii_chars(dec_text(value as nat)),
    decreases value,
{
    if value < 10 {
        text.append(digit_str(value));
        assert(ascii_chars(dec_text(value as nat)) == seq![(DIGIT_0 + value) as u8 as char]);
    } else {
        append_dec(text, value / 10);
        text.append(digit_str(value % 10));
        assert(ascii_chars(dec_text(value as nat)) == ascii_chars(dec_text(value as nat / 10))
            + seq![(DIGIT_0 + value % 10) as u8 as char]);
    }
}

/// A text made of a letter and a number in decimal.
fn lettered_text(letter: &str, value: u32) -> (text: String)
    requires
        letter@.len() == 1,
    ensures
        text@ == lettered(letter@[0], value as nat),
{
    let mut text: String = String::new();
    text.append(letter);
    append_dec(&mut text, value);
    assert(letter@ == seq![letter@[0]]);
    text
}

/// The index of a canonical bit rate.
pub fn bitrate_index(bitrate: u32) -> (code: Option<u8>)
    ensures
        code == bitrate_code(bitrate),
{
    if bitrate == 10_000 {
        Some(0)
    } else if bitrate == 20_000 {
        Some(1)
    } else if bitrate == 50_000 {
        Some(2)
    } else if bitrate == 100_000 {
        Some(3)
    } else if bitrate == 125_000 {
        Some(4)
    } else if bitrate == 250_000 {
        Some(5)
    } else if bitrate == 500_000 {
        Some(6)
    } else if bitrate == 800_000 {
        Some(7)
    } else if bitrate == 1_000_000 {
        Some(8)
    } else {
        None
    }
}

/// The text that sets the nominal bit rate of a channel.
pub fn bitrate_command(bitrate: u32) -> (text: String)
    ensures
        text@ == bitrate_text(bitrate),
{
    proof {
        reveal_strlit("S");
        reveal_strlit("y");
    }
    match bitrate_index(bitrate) {
        Some(code) => lettered_text("S", code as u32),
        None => lettered_text("y", bitrate),
    }
}

/// The text that sets the data bit rate of a channel. The bit rate is
/// given as a number of whole megabits per second, from 1 to 15; any other
/// value is refused.
pub fn data_bitrate_command(bitrate: u32) -> (made: Result<String, SlcanError>)
    ensures
        is_data_bitrate(bitrate) ==> made is Ok && made->Ok_0@ == data_bitrate_text(bitrate),
        !is_data_bitrate(bitrate) ==> made is Err && made->Err_0 is InvalidArgument,
{
    proof {
        reveal_strlit("Y");
    }
    if MIN_DATA_MEGABITS <= bitrate && bitrate <= MAX_DATA_MEGABITS {
        Ok(lettered_text("Y", bitrate))
    } else {
        Err(SlcanError::InvalidArgument)
    }
}

/// The texts that set the sample points of a channel, each given in tenths
/// of a percent.
pub fn sample_point_commands(nominal: Option<u32>, data: Option<u32>) -> (texts: Vec<String>)
    ensures
        text_views(texts@) == sample_point_texts(nominal, data),
{
    proof {
        reveal_strlit("p");
        reveal_strlit("P");
    }
    let mut texts: Vec<String> = Vec::new();
    if let Some(n) = nominal {
        texts.push(lettered_text("p", n));
    }
    if let Some(d) = data {
        texts.push(lettered_text("P", d));
    }
    texts
}

/// The text that opens a channel.
pub fn open_command() -> (text: String)
    ensures
        text@ == open_text(),
{
    proof {
        reveal_strlit("O");
    }
    "O".to_owned()
}

/// The text that closes a channel.
pub fn close_command() -> (text: String)
    ensures
        text@ == close_text(),
{
    proof {
        reveal_strlit("C");
    }
    "C".to_owned()
}

} // verus!
