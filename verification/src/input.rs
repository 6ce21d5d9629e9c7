//! The test that a line of input passes before it counts as a guess.

use vstd::prelude::*;
use vstd::string::StringExecFns;
use crate::dictionary::{Dictionary, WORD_LENGTH};
use crate::text::uppercase;

verus! {

/// Why a line of input is not taken as a guess.
#[derive(Clone, Copy, Debug, PartialEq, Eq, Structural)]
pub enum InputError {
    /// It has fewer letters than a word.
    TooShort,
    /// It has more letters than a word.
    TooLong,
    /// It has the length of a word and is not in the dictionary.
    NotAWord,
}

/// What is wrong with `input` as a guess, if anything: its length is
/// looked at first, then the dictionary with the words `words`.
pub open spec fn fault(words: Seq<Seq<char>>, input: Seq<char>) -> Option<InputError> {
    if input.len() < WORD_LENGTH {
        Some(InputError::TooShort)
    } else if input.len() > WORD_LENGTH {
        Some(InputError::TooLong)
    } else if !words.contains(uppercase(input)) {
        Some(InputError::NotAWord)
    } else {
        None
    }
}

/// What the player is told about an error.
pub open spec fn message_of(error: InputError) -> Seq<char> {
    match error {
        InputError::TooShort => "Too short"@,
        InputError::TooLong => "Too long"@,
        InputError::NotAWord => "Not a valid word"@,
    }
}

/// The line that shows an error on a terminal: on a line of its own, in
/// bold red, after the mark `E: `.
pub open spec fn notice_of(error: InputError) -> Seq<char> {
    "\n\x1b[1;31mE: "@ + message_of(error) + "\x1b[0m"@
}

impl InputError {
    /// What the player is told about the error.
    pub fn message(&self) -> (text: &'static str)
        ensures
            text@ == message_of(*self),
    {
        match self {
            InputError::TooShort => "Too short",
            InputError::TooLong => "Too long",
            InputError::NotAWord => "Not a valid word",
        }
    }

    /// The line that shows the error on a terminal.
    pub fn notice(&self) -> (line: String)
        ensures
            line@ == notice_of(*self),
    {
        let mut line = String::from_str("\n\x1b[1;31mE: ");
        line.append(self.message());
        line.append("\x1b[0m");
        line
    }
}

/// Tests whether `input` can be taken as a guess: it must have the length
/// of a word, and its upper-case form must be in the dictionary.
pub fn check_input(dictionary: &Dictionary, input: &str) -> (result: Result<(), InputError>)
    ensures
        match result {
            Ok(()) => fault(dictionary@, input@) is None,
            Err(error) => fault(dictionary@, input@) == Some(error),
        },
        result is Ok ==> input@.len() == WORD_LENGTH && uppercase(input@).len() == WORD_LENGTH,
        input@.len() != WORD_LENGTH ==> result is Err,
{
    let length = input.unicode_len();
    if length < WORD_LENGTH {
        Err(InputError::TooShort)
    } else if length > WORD_LENGTH {
        Err(InputError::TooLong)
    } else if !dictionary.contains(input) {
        Err(InputError::NotAWord)
    } else {
        Ok(())
    }
}

/// The three errors are told apart by their messages.
pub proof fn lemma_messages_differ(first: InputError, second: InputError)
    requires
        message_of(first) == message_of(second),
    ensures
        first == second,
{
    reveal_strlit("Too short");
    reveal_strlit("Too long");
    reveal_strlit("Not a valid word");
    assert(message_of(InputError::TooShort).len() == 9);
    assert(message_of(InputError::TooLong).len() == 8);
    assert(message_of(InputError::NotAWord).len() == 16);
}

} // verus!
