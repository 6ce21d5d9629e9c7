//! The game: a hidden answer and the count of the guesses made at it.

use vstd::prelude::*;
use crate::dictionary::{Dictionary, WORD_LENGTH};
use crate::input::{check_input, fault, InputError};
use crate::response::{is_response, GuessResponse};
use crate::text::uppercase;

verus! {

/// A game in which guesses are scored against a hidden answer.
pub trait WordleGame: Sized {
    /// The hidden answer.
    spec fn answer_letters(&self) -> Seq<char>;

    /// The number of guesses made so far.
    spec fn tries_made(&self) -> nat;

    /// Starts a game whose answer is a word of `dictionary`, drawn with
    /// the random generator of the calling thread. No guess has been made.
    fn new(dictionary: &Dictionary) -> (game: Self)
        ensures
            game.tries_made() == 0,
            dictionary@.contains(game.answer_letters()),
            game.answer_letters().len() == WORD_LENGTH,
    ;

    /// Counts one more guess and scores it against the answer, which stays
    /// as it is. The guess is put in upper case and must then have as many
    /// letters as the answer.
    fn guess(&mut self, guess: &String) -> (response: GuessResponse)
        requires
            uppercase(guess@).len() == old(self).answer_letters().len(),
            old(self).tries_made() < u64::MAX,
        ensures
            final(self).answer_letters() == old(self).answer_letters(),
            final(self).tries_made() == old(self).tries_made() + 1,
            is_response(response@, uppercase(guess@), old(self).answer_letters()),
            response@.letter_scores.len() == response@.guess.len(),
    ;
}

/// The game as it is usually played: any word of the dictionary may be
/// guessed, as often as the player likes.
#[derive(Debug)]
pub struct NormalGame {
    answer: String,
    tries: u64,
}

impl NormalGame {
    #[verifier::type_invariant]
    spec fn well_formed(&self) -> bool {
        self.answer@.len() == WORD_LENGTH
    }

    /// A game with the given answer, which is taken as it is, if it has
    /// the length of a word. No guess has been made.
    pub fn with_answer(answer: String) -> (game: Option<NormalGame>)
        ensures
            match game {
                Some(game) => {
                    &&& answer@.len() == WORD_LENGTH
                    &&& game.answer_letters() == answer@
                    &&& game.tries_made() == 0
                },
                None => answer@.len() != WORD_LENGTH,
            },
    {
        if answer.as_str().unicode_len() == WORD_LENGTH {
            Some(NormalGame { answer, tries: 0 })
        } else {
            None
        }
    }

    /// The hidden answer.
    pub fn answer(&self) -> (answer: &String)
        ensures
            answer@ == self.answer_letters(),
            answer@.len() == WORD_LENGTH,
    {
        proof {
            use_type_invariant(self);
        }
        &self.answer
    }

    /// The number of guesses made so far.
    pub fn tries(&self) -> (tries: u64)
        ensures
            tries == self.tries_made(),
    {
        self.tries
    }

    /// Takes a line of input as a guess if it passes the test for guesses,
    /// and scores it. A line that does not pass is not counted, and the
    /// game stays as it is.
    pub fn try_guess(&mut self, dictionary: &Dictionary, input: &String) -> (result: Result<
        GuessResponse,
        InputError,
    >)
        requires
            old(self).tries_made() < u64::MAX,
        ensures
            final(self).answer_letters() == old(self).answer_letters(),
            match result {
                Ok(response) => {
                    &&& fault(dictionary@, input@) is None
                    &&& final(self).tries_made() == old(self).tries_made() + 1
                    &&& is_response(response@, uppercase(input@), old(self).answer_letters())
                    &&& response@.letter_scores.len() == WORD_LENGTH
                },
                Err(error) => {
                    &&& fault(dictionary@, input@) == Some(error)
                    &&& final(self).tries_made() == old(self).tries_made()
                },
            },
            input@.len() != WORD_LENGTH ==> result is Err,
    {
        proof {
            use_type_invariant(&*self);
        }
        match check_input(dictionary, input.as_str()) {
            Ok(()) => Ok(self.guess(input)),
            Err(error) => Err(error),
        }
    }
}

impl WordleGame for NormalGame {
    closed spec fn answer_letters(&self) -> Seq<char> {
        self.answer@
    }

    closed spec fn tries_made(&self) -> nat {
        self.tries as nat
    }

    fn new(dictionary: &Dictionary) -> (game: NormalGame) {
        let mut rng = rand::thread_rng();
        NormalGame { answer: dictionary.random_word(&mut rng), tries: 0 }
    }

    fn guess(&mut self, guess: &String) -> (response: GuessResponse) {
        proof {
            use_type_invariant(&*self);
        }
        self.tries = self.tries + 1;
        GuessResponse::new(guess, &self.answer)
    }
}

} // verus!
