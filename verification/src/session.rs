//! One turn of an interactive session: what the game does with what the
//! reader of the input came back with, and how the session goes on.

use vstd::prelude::*;
use crate::dictionary::Dictionary;
use crate::game::{NormalGame, WordleGame};
use crate::input::{fault, InputError};
use crate::response::{is_response, GuessResponse};
use crate::scoring::all_correct;
use crate::text::uppercase;

verus! {

/// What reading the input came back with.
#[derive(Debug)]
pub enum Event {
    /// A line of input.
    Line(String),
    /// The player interrupted the session.
    Interrupted,
    /// The input has ended.
    EndOfInput,
    /// Reading failed for another reason.
    Failed,
}

/// What a turn led to.
#[derive(Debug)]
pub enum Step {
    /// The line was a guess, and not the answer: the session goes on.
    Scored(GuessResponse),
    /// The line was the answer: the session ends.
    Won(GuessResponse),
    /// The line was not taken as a guess: the session goes on.
    Refused(InputError),
    /// The player interrupted the session: it ends.
    Interrupted,
    /// The input has ended, and the session with it.
    Ended,
    /// Reading failed: the session ends as a failure.
    Failed,
}

/// The status with which the process leaves after this step, if the
/// session ends with it: zero unless reading failed.
pub open spec fn exit_status_of(step: Step) -> Option<u8> {
    match step {
        Step::Scored(_) => None,
        Step::Refused(_) => None,
        Step::Won(_) => Some(0u8),
        Step::Interrupted => Some(0u8),
        Step::Ended => Some(0u8),
        Step::Failed => Some(1u8),
    }
}

/// What the player is told when the session ends with this step.
pub open spec fn farewell_of(step: Step) -> Option<Seq<char>> {
    match step {
        Step::Won(_) => Some("Congratulations, you have won!"@),
        Step::Interrupted => Some("Ctrl-C"@),
        Step::Ended => Some("Ctrl-D"@),
        _ => None,
    }
}

impl Step {
    /// The status with which the process leaves, if the session ends here.
    pub fn exit_status(&self) -> (status: Option<u8>)
        ensures
            status == exit_status_of(*self),
    {
        match self {
            Step::Scored(_) => None,
            Step::Refused(_) => None,
            Step::Won(_) => Some(0),
            Step::Interrupted => Some(0),
            Step::Ended => Some(0),
            Step::Failed => Some(1),
        }
    }

    /// What the player is told when the session ends here.
    pub fn farewell(&self) -> (text: Option<&'static str>)
        ensures
            match text {
                Some(text) => farewell_of(*self) == Some(text@),
                None => farewell_of(*self) is None,
            },
    {
        match self {
            Step::Won(_) => Some("Congratulations, you have won!"),
            Step::Interrupted => Some("Ctrl-C"),
            Step::Ended => Some("Ctrl-D"),
            _ => None,
        }
    }
}

/// Takes one turn. A line of input is tested and, if it passes, counted
/// and scored; the session is won if every letter is correct. The other
/// events end the session and leave the game as it is.
pub fn step(game: &mut NormalGame, dictionary: &Dictionary, event: Event) -> (step: Step)
    requires
        event is Line ==> old(game).tries_made() < u64::MAX,
    ensures
        final(game).answer_letters() == old(game).answer_letters(),
        match step {
            Step::Scored(response) => {
                &&& event matches Event::Line(input)
                &&& fault(dictionary@, input@) is None
                &&& is_response(response@, uppercase(input@), old(game).answer_letters())
                &&& !all_correct(response@.letter_scores)
                &&& final(game).tries_made() == old(game).tries_made() + 1
            },
            Step::Won(response) => {
                &&& event matches Event::Line(input)
                &&& fault(dictionary@, input@) is None
                &&& is_response(response@, uppercase(input@), old(game).answer_letters())
                &&& all_correct(response@.letter_scores)
                &&& final(game).tries_made() == old(game).tries_made() + 1
            },
            Step::Refused(error) => {
                &&& event matches Event::Line(input)
                &&& fault(dictionary@, input@) == Some(error)
                &&& final(game).tries_made() == old(game).tries_made()
            },
            Step::Interrupted => {
                &&& event is Interrupted
                &&& final(game).tries_made() == old(game).tries_made()
            },
            Step::Ended => {
                &&& event is EndOfInput
                &&& final(game).tries_made() == old(game).tries_made()
            },
            Step::Failed => {
                &&& event is Failed
                &&& final(game).tries_made() == old(game).tries_made()
            },
        },
{
    match event {
        Event::Line(input) => match game.try_guess(dictionary, &input) {
            Ok(response) => if response.is_winning() {
                Step::Won(response)
            } else {
                Step::Scored(response)
            },
            Err(error) => Step::Refused(error),
        },
        Event::Interrupted => Step::Interrupted,
        Event::EndOfInput => Step::Ended,
        Event::Failed => Step::Failed,
    }
}

} // verus!
