//! The feedback given for one letter of a guess.

use vstd::prelude::*;

verus! {

/// What one letter of a guess is worth against the answer.
#[derive(Clone, Copy, Debug, PartialEq, Eq, Structural)]
pub enum LetterScore {
    /// The answer holds this letter at this position.
    Correct,
    /// The answer holds this letter at another position that no other
    /// letter of the guess has claimed.
    IncorrectSpot,
    /// The answer has no occurrence of this letter left.
    NotInWord,
}

/// The terminal sequence that sets the colour in which a letter with this
/// score is shown: bold green, bold yellow or bold red.
pub open spec fn color_of(score: LetterScore) -> Seq<char> {
    match score {
        LetterScore::Correct => "\x1b[1;32m"@,
        LetterScore::IncorrectSpot => "\x1b[1;33m"@,
        LetterScore::NotInWord => "\x1b[1;31m"@,
    }
}

impl LetterScore {
    /// The terminal sequence that sets the colour for this score.
    pub fn color(&self) -> (code: &'static str)
        ensures
            code@ == color_of(*self),
    {
        match self {
            LetterScore::Correct => "\x1b[1;32m",
            LetterScore::IncorrectSpot => "\x1b[1;33m",
            LetterScore::NotInWord => "\x1b[1;31m",
        }
    }
}

/// Scores that differ are shown in colours that differ.
pub proof fn lemma_colors_differ(first: LetterScore, second: LetterScore)
    requires
        color_of(first) == color_of(second),
    ensures
        first == second,
{
    reveal_strlit("\x1b[1;32m");
    reveal_strlit("\x1b[1;33m");
    reveal_strlit("\x1b[1;31m");
    assert(color_of(LetterScore::Correct)[5] == '2');
    assert(color_of(LetterScore::IncorrectSpot)[5] == '3');
    assert(color_of(LetterScore::NotInWord)[5] == '1');
}

} // verus!
