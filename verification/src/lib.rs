//! A word-guessing game: a dictionary of five-letter words, the rule that
//! scores a guess against the hidden answer, and the session that counts
//! the guesses.

pub mod credit;
pub mod dictionary;
pub mod game;
pub mod input;
pub mod marking;
pub mod random;
pub mod response;
pub mod score;
pub mod scoring;
pub mod session;
pub mod text;

pub use crate::dictionary::{is_valid_word, Dictionary, LoadError, WORD_LENGTH};
pub use crate::game::{NormalGame, WordleGame};
pub use crate::input::{check_input, InputError};
pub use crate::response::GuessResponse;
pub use crate::score::LetterScore;
pub use crate::session::{step, Event, Step};
