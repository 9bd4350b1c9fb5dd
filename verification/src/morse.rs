//! Morse code for the buzzer: text to dots and dashes.

use vstd::prelude::*;
use vstd::string::{StrSliceExecFns, StringExecFns};

verus! {

/// The Morse code of a character, in dots and dashes; a space is a slash.
/// Letters count in either case. A character that the table does not hold
/// has the empty code.
pub open spec fn code_of(c: char) -> Seq<char> {
    match c {
        'A' | 'a' => ".-"@,
        'C' | 'c' => "-.-."@,
        'F' | 'f' => "..-."@,
        'H' | 'h' => "...."@,
        'I' | 'i' => ".."@,
        'K' | 'k' => "-.-"@,
        'N' | 'n' => "-."@,
        'O' | 'o' => "---"@,
        'R' | 'r' => ".-."@,
        'S' | 's' => "..."@,
        'V' | 'v' => "...-"@,
        ' ' => "/"@,
        ',' => "--..--"@,
        '.' => ".-.-.-"@,
        _ => ""@,
    }
}

/// The codes of the characters of a text, in order, with one space between
/// neighbours.
pub open spec fn morse_of(text: Seq<char>) -> Seq<char>
    decreases text.len(),
{
    if text.len() == 0 {
        Seq::empty()
    } else if text.len() == 1 {
        code_of(text[0])
    } else {
        morse_of(text.drop_last()) + " "@ + code_of(text.last())
    }
}

/// Looks up the Morse code of a character.
pub fn letter_code(c: char) -> (code: &'static str)
    ensures
        code@ == code_of(c),
{
    match c {
        'A' | 'a' => ".-",
        'C' | 'c' => "-.-.",
        'F' | 'f' => "..-.",
        'H' | 'h' => "....",
        'I' | 'i' => "..",
        'K' | 'k' => "-.-",
        'N' | 'n' => "-.",
        'O' | 'o' => "---",
        'R' | 'r' => ".-.",
        'S' | 's' => "...",
        'V' | 'v' => "...-",
        ' ' => "/",
        ',' => "--..--",
        '.' => ".-.-.-",
        _ => "",
    }
}

/// Turns a text into Morse code: the code of each character, joined by
/// single spaces.
pub fn text_to_morse(text: &str) -> (morse: String)
    ensures
        morse@ == morse_of(text@),
{
    let count = text.unicode_len();
    let mut morse = String::new();
    let mut index: usize = 0;
    while index < count
        invariant
            index <= count,
            count == text@.len(),
            morse@ == morse_of(text@.take(index as int)),
        decreases count - index,
    {
        if index > 0 {
            morse.append(" ");
        }
        morse.append(letter_code(text.get_char(index)));
        proof {
            let head = text@.take(index as int + 1);
            assert(head.drop_last() == text@.take(index as int));
            assert(head.last() == text@[index as int]);
        }
        index = index + 1;
    }
    assert(text@.take(count as int) == text@);
    morse
}

/// Length of a dot, and of the silence after every symbol, in milliseconds.
pub const DOT_MS: u32 = 200;

/// One step of keying the buzzer: sound for `tone_ms` milliseconds, if that
/// is not zero, then stay silent for `rest_ms` milliseconds.
#[derive(Clone, Copy, Debug, PartialEq, Eq, Structural)]
pub struct Beep {
    pub tone_ms: u32,
    pub rest_ms: u32,
}

/// How a symbol of Morse code is keyed. A dot sounds for one dot length and
/// a dash for three; a space is a silence of three dot lengths and a slash
/// one of seven; any other character is skipped. After every symbol comes a
/// silence of one dot length.
pub open spec fn beep_of(symbol: char) -> Beep {
    match symbol {
        '.' => Beep { tone_ms: 200, rest_ms: 200 },
        '-' => Beep { tone_ms: 600, rest_ms: 200 },
        ' ' => Beep { tone_ms: 0, rest_ms: 800 },
        '/' => Beep { tone_ms: 0, rest_ms: 1600 },
        _ => Beep { tone_ms: 0, rest_ms: 200 },
    }
}

/// Says how one symbol of Morse code is keyed.
pub fn symbol_beep(symbol: char) -> (beep: Beep)
    ensures
        beep == beep_of(symbol),
{
    let dash = DOT_MS * 3;
    let between_letters = DOT_MS * 3;
    let between_words = DOT_MS * 7;
    match symbol {
        '.' => Beep { tone_ms: DOT_MS, rest_ms: DOT_MS },
        '-' => Beep { tone_ms: dash, rest_ms: DOT_MS },
        ' ' => Beep { tone_ms: 0, rest_ms: between_letters + DOT_MS },
        '/' => Beep { tone_ms: 0, rest_ms: between_words + DOT_MS },
        _ => Beep { tone_ms: 0, rest_ms: DOT_MS },
    }
}

/// Turns Morse code into the steps that key it on the buzzer, one for each
/// character.
pub fn keying_plan(morse: &str) -> (plan: Vec<Beep>)
    ensures
        plan@ == morse@.map_values(|symbol: char| beep_of(symbol)),
{
    let count = morse.unicode_len();
    let mut plan: Vec<Beep> = Vec::new();
    let mut index: usize = 0;
    while index < count
        invariant
            index <= count,
            count == morse@.len(),
            plan@ == morse@.take(index as int).map_values(|symbol: char| beep_of(symbol)),
        decreases count - index,
    {
        plan.push(symbol_beep(morse.get_char(index)));
        proof {
            let beep = |symbol: char| beep_of(symbol);
            assert(morse@.take(index as int + 1).map_values(beep) =~= morse@.take(
                index as int,
            ).map_values(beep).push(beep_of(morse@[index as int])));
        }
        index = index + 1;
    }
    assert(morse@.take(count as int) == morse@);
    plan
}

} // verus!
