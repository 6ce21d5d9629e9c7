//! The rule that scores a guess against the answer.
//!
//! A letter of the guess that sits where the answer has it is `Correct`.
//! The other letters of the guess compete, from left to right, for the
//! occurrences of their letter that the answer holds at positions without
//! an exact match: as long as such an occurrence is left the letter is in
//! an `IncorrectSpot`, afterwards it is `NotInWord`.

use vstd::prelude::*;
use crate::score::LetterScore;
use crate::marking::{first_free, marks_before, marked_scores, lemma_marked_scores_agree};
use crate::text::letters;

verus! {

/// The number of positions below `end` at which `word` holds `letter` and
/// `other` does not.
///
/// With the guess as `word` this counts the letters `letter` of the guess
/// that look for a place elsewhere; with the answer as `word` it counts the
/// occurrences of `letter` in the answer that an exact match has not taken.
pub open spec fn misplaced(word: Seq<char>, other: Seq<char>, letter: char, end: int) -> nat
    decreases end,
{
    if end <= 0 {
        0
    } else {
        let before = misplaced(word, other, letter, end - 1);
        if word[end - 1] == letter && other[end - 1] != letter {
            before + 1
        } else {
            before
        }
    }
}

/// The score of the letter at position `i` of `guess`.
pub open spec fn score_at(guess: Seq<char>, answer: Seq<char>, i: int) -> LetterScore {
    let letter = guess[i];
    if letter == answer[i] {
        LetterScore::Correct
    } else if misplaced(guess, answer, letter, i) < misplaced(
        answer,
        guess,
        letter,
        answer.len() as int,
    ) {
        LetterScore::IncorrectSpot
    } else {
        LetterScore::NotInWord
    }
}

/// The scores of all letters of `guess`, one per position.
pub open spec fn letter_scores(guess: Seq<char>, answer: Seq<char>) -> Seq<LetterScore> {
    Seq::new(guess.len(), |i: int| score_at(guess, answer, i))
}

/// Whether every score in `scores` is `Correct`.
pub open spec fn all_correct(scores: Seq<LetterScore>) -> bool {
    forall|i: int| 0 <= i < scores.len() ==> scores[i] == LetterScore::Correct
}

/// Scores `guess` against `answer`, letter by letter.
///
/// Exact matches are settled first and take their position of the answer
/// out of play. Then each remaining letter of the guess, from left to
/// right, takes the leftmost position of the answer that is still in play
/// and holds the same letter, if there is one.
pub fn score(guess: &str, answer: &str) -> (scores: Vec<LetterScore>)
    requires
        guess@.len() == answer@.len(),
    ensures
        scores@ == letter_scores(guess@, answer@),
        scores@ == marked_scores(guess@, answer@),
        scores@.len() == guess@.len(),
{
    let guess_letters = letters(guess);
    let answer_letters = letters(answer);
    let n = guess_letters.len();
    let mut scores: Vec<LetterScore> = Vec::new();
    let mut used: Vec<bool> = Vec::new();

    let mut i: usize = 0;
    while i < n
        invariant
            i <= n,
            n == guess_letters@.len(),
            n == answer_letters@.len(),
            scores@.len() == i,
            used@.len() == i,
            forall|k: int|
                0 <= k < i ==> used@[k] == (guess_letters@[k] == answer_letters@[k]),
            forall|k: int|
                0 <= k < i ==> scores@[k] == unsettled_score(guess_letters@, answer_letters@, k),
        decreases n - i,
    {
        if guess_letters[i] == answer_letters[i] {
            scores.push(LetterScore::Correct);
            used.push(true);
        } else {
            scores.push(LetterScore::NotInWord);
            used.push(false);
        }
        i += 1;
    }
    assert(used@ =~= marks_before(guess_letters@, answer_letters@, 0));

    let mut i: usize = 0;
    while i < n
        invariant
            i <= n,
            n == guess_letters@.len(),
            n == answer_letters@.len(),
            scores@.len() == n,
            used@ == marks_before(guess_letters@, answer_letters@, i as int),
            used@.len() == n,
            forall|k: int|
                0 <= k < i ==> scores@[k] == crate::marking::marked_score_at(
                    guess_letters@,
                    answer_letters@,
                    k,
                ),
            forall|k: int|
                i <= k < n ==> scores@[k] == unsettled_score(guess_letters@, answer_letters@, k),
        decreases n - i,
    {
        let letter = guess_letters[i];
        if letter != answer_letters[i] {
            let j = find_free(&answer_letters, &used, letter);
            if j < n {
                scores.set(i, LetterScore::IncorrectSpot);
                used.set(j, true);
            }
        }
        i += 1;
    }
    proof {
        assert(scores@ =~= marked_scores(guess_letters@, answer_letters@));
        lemma_marked_scores_agree(guess_letters@, answer_letters@);
    }
    scores
}

/// The score a position has before the letters without an exact match
/// have looked for a place.
spec fn unsettled_score(guess: Seq<char>, answer: Seq<char>, i: int) -> LetterScore {
    if guess[i] == answer[i] {
        LetterScore::Correct
    } else {
        LetterScore::NotInWord
    }
}

/// The leftmost position of `answer` that is not yet used and holds
/// `letter`, or the length of `answer` if there is none.
fn find_free(answer: &Vec<char>, used: &Vec<bool>, letter: char) -> (j: usize)
    requires
        used@.len() == answer@.len(),
    ensures
        j == first_free(answer@, used@, letter, 0),
        j <= answer@.len(),
{
    let n = answer.len();
    let mut j: usize = 0;
    while j < n
        invariant_except_break
            j <= n,
            first_free(answer@, used@, letter, 0) == first_free(answer@, used@, letter, j as int),
        invariant
            n == answer@.len(),
            n == used@.len(),
        ensures
            j <= n,
            j == first_free(answer@, used@, letter, 0),
        decreases n - j,
    {
        if !used[j] && answer[j] == letter {
            break ;
        }
        j += 1;
    }
    j
}

} // verus!
