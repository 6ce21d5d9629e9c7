//! The answer that the game gives to one guess.

use vstd::prelude::*;
use vstd::string::StringExecFns;
use crate::score::{color_of, LetterScore};
use crate::scoring::{all_correct, letter_scores, score};
use crate::text::{ascii_upper, letters, to_ascii_upper, uppercase};

verus! {

/// What a response holds: the guess in upper case, and the score of each of
/// its letters.
pub struct ResponseView {
    pub guess: Seq<char>,
    pub letter_scores: Seq<LetterScore>,
}

/// Whether `view` is the response to the upper-case word `guess` in a game
/// with the given answer.
pub open spec fn is_response(view: ResponseView, guess: Seq<char>, answer: Seq<char>) -> bool {
    &&& view.guess == guess
    &&& view.letter_scores == letter_scores(guess, answer)
}

/// The coloured letters of the first `end` positions: before each letter
/// the sequence that sets the colour of its score.
pub open spec fn painted(guess: Seq<char>, scores: Seq<LetterScore>, end: int) -> Seq<char>
    decreases end,
{
    if end <= 0 {
        Seq::empty()
    } else {
        painted(guess, scores, end - 1) + color_of(scores[end - 1]).push(
            ascii_upper(guess[end - 1]),
        )
    }
}

/// The line that shows a response on a terminal: two blanks, the coloured
/// letters, and the sequence that resets the colour.
pub open spec fn rendered(view: ResponseView) -> Seq<char> {
    "  "@ + painted(view.guess, view.letter_scores, view.guess.len() as int) + "\x1b[0m"@
}

/// A guess with the score of each of its letters.
#[derive(Debug)]
pub struct GuessResponse {
    guess: String,
    letter_scores: Vec<LetterScore>,
}

impl View for GuessResponse {
    type V = ResponseView;

    closed spec fn view(&self) -> ResponseView {
        ResponseView { guess: self.guess@, letter_scores: self.letter_scores@ }
    }
}

impl GuessResponse {
    #[verifier::type_invariant]
    spec fn well_formed(&self) -> bool {
        self.letter_scores@.len() == self.guess@.len()
    }

    /// The response to `guess`, which is put in upper case first, in a
    /// game with the given answer.
    pub fn new(guess: &String, answer: &String) -> (response: GuessResponse)
        requires
            uppercase(guess@).len() == answer@.len(),
        ensures
            is_response(response@, uppercase(guess@), answer@),
            response@.letter_scores.len() == response@.guess.len(),
    {
        GuessResponse::scored(guess.as_str().to_uppercase(), answer.as_str())
    }

    /// The response to `guess`, taken as it is, in a game with the given
    /// answer.
    pub fn scored(guess: String, answer: &str) -> (response: GuessResponse)
        requires
            guess@.len() == answer@.len(),
        ensures
            is_response(response@, guess@, answer@),
            response@.letter_scores.len() == response@.guess.len(),
    {
        let letter_scores = score(guess.as_str(), answer);
        GuessResponse { guess, letter_scores }
    }

    /// The guess, in upper case.
    pub fn guess(&self) -> (guess: &String)
        ensures
            guess@ == self@.guess,
    {
        &self.guess
    }

    /// The scores, one for each letter of the guess.
    pub fn letter_scores(&self) -> (scores: &Vec<LetterScore>)
        ensures
            scores@ == self@.letter_scores,
            scores@.len() == self@.guess.len(),
    {
        proof {
            use_type_invariant(self);
        }
        &self.letter_scores
    }

    /// Whether the guess was the answer: every letter is `Correct`.
    pub fn is_winning(&self) -> (won: bool)
        ensures
            won == all_correct(self@.letter_scores),
    {
        let mut i: usize = 0;
        while i < self.letter_scores.len()
            invariant
                i <= self.letter_scores@.len(),
                forall|k: int| 0 <= k < i ==> self.letter_scores@[k] == LetterScore::Correct,
            decreases self.letter_scores@.len() - i,
        {
            if self.letter_scores[i] != LetterScore::Correct {
                return false;
            }
            i += 1;
        }
        true
    }

    /// The line that shows the response on a terminal.
    pub fn render(&self) -> (line: String)
        ensures
            line@ == rendered(self@),
    {
        proof {
            use_type_invariant(self);
        }
        let guess = letters(self.guess.as_str());
        let n = guess.len();
        let mut line = String::from_str("  ");
        let mut i: usize = 0;
        while i < n
            invariant
                i <= n,
                n == guess@.len(),
                n == self.letter_scores@.len(),
                line@ == "  "@ + painted(guess@, self.letter_scores@, i as int),
            decreases n - i,
        {
            line.append(self.letter_scores[i].color());
            line.push(to_ascii_upper(guess[i]));
            assert(line@ =~= "  "@ + painted(guess@, self.letter_scores@, i + 1));
            i += 1;
        }
        line.append("\x1b[0m");
        line
    }
}

/// A guess and an answer have one response: two responses to the same
/// guess in games with the same answer are equal.
pub proof fn lemma_response_determined(
    first: ResponseView,
    second: ResponseView,
    guess: Seq<char>,
    answer: Seq<char>,
)
    requires
        is_response(first, guess, answer),
        is_response(second, guess, answer),
    ensures
        first == second,
{
}

} // verus!
