//! Text as sequences of letters: upper case, lines, and the conversions
//! between strings and vectors of letters.

use vstd::prelude::*;

verus! {

/// The upper-case form of `text` as Unicode defines it. A letter may turn
/// into several, so the result can be longer than `text`.
pub uninterp spec fn uppercase(text: Seq<char>) -> Seq<char>;

/// `str::to_uppercase` of the standard library. Its result is taken to
/// depend on the letters of `text` alone; nothing else is claimed of it.
pub assume_specification[ str::to_uppercase ](text: &str) -> (upper: String)
    ensures
        upper@ == uppercase(text@),
;

/// `String::push` of the standard library: `letter` is appended to `text`
/// and the letters before it stay.
pub assume_specification[ String::push ](text: &mut String, letter: char)
    ensures
        final(text)@ == old(text)@.push(letter),
;

/// `letter` with the letters `a` to `z` turned into `A` to `Z`.
pub open spec fn ascii_upper(letter: char) -> char {
    if 'a' <= letter && letter <= 'z' {
        ((letter as u8) - 32) as char
    } else {
        letter
    }
}

/// Turns the letters `a` to `z` into `A` to `Z` and leaves every other
/// letter as it is.
pub fn to_ascii_upper(letter: char) -> (upper: char)
    ensures
        upper == ascii_upper(letter),
{
    if 'a' <= letter && letter <= 'z' {
        let code: u8 = letter as u8;
        (code - 32) as char
    } else {
        letter
    }
}

/// The letters of `text`, in order, as a vector that can be indexed in
/// constant time.
pub fn letters(text: &str) -> (out: Vec<char>)
    ensures
        out@ == text@,
{
    let mut out: Vec<char> = Vec::new();
    for letter in it: text.chars()
        invariant
            out@ == it.seq().take(it.index()),
            it.seq() == text@,
    {
        out.push(letter);
    }
    out
}

/// The string made of the first `end` letters of `letters`.
pub fn string_of(letters: &Vec<char>, end: usize) -> (text: String)
    requires
        end <= letters@.len(),
    ensures
        text@ == letters@.take(end as int),
{
    let mut text = String::new();
    let mut i: usize = 0;
    while i < end
        invariant
            i <= end <= letters@.len(),
            text@ == letters@.take(i as int),
        decreases end - i,
    {
        text.push(letters[i]);
        assert(letters@.take(i + 1) =~= letters@.take(i as int).push(letters@[i as int]));
        i += 1;
    }
    text
}

/// `line` without the carriage return at its end, if it has one.
pub open spec fn without_carriage_return(line: Seq<char>) -> Seq<char> {
    if line.len() > 0 && line.last() == '\r' {
        line.drop_last()
    } else {
        line
    }
}

/// The lines of `text` from position `from` on, where `current` holds the
/// letters of the line that is being read.
///
/// A line feed ends a line, and a carriage return directly before it
/// belongs to the line ending. What follows the last line feed is a line
/// of its own unless it is empty.
pub open spec fn lines_from(text: Seq<char>, from: int, current: Seq<char>) -> Seq<Seq<char>>
    decreases text.len() - from,
{
    if from >= text.len() {
        if current.len() == 0 {
            Seq::empty()
        } else {
            seq![current]
        }
    } else if text[from] == '\n' {
        seq![without_carriage_return(current)] + lines_from(text, from + 1, Seq::empty())
    } else {
        lines_from(text, from + 1, current.push(text[from]))
    }
}

/// The lines of `text`.
pub open spec fn lines(text: Seq<char>) -> Seq<Seq<char>> {
    lines_from(text, 0, Seq::empty())
}

} // verus!
