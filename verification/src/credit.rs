//! What the scoring rule guarantees: a word scored against itself wins, and
//! no letter is credited more often than the answer holds it.

use vstd::prelude::*;
use crate::marking::smaller;
use crate::score::LetterScore;
use crate::scoring::{all_correct, letter_scores, misplaced, score_at};

verus! {

/// The number of positions below `end` at which `word` holds `letter`.
pub open spec fn occurrences(word: Seq<char>, letter: char, end: int) -> nat
    decreases end,
{
    if end <= 0 {
        0
    } else {
        let before = occurrences(word, letter, end - 1);
        if word[end - 1] == letter {
            before + 1
        } else {
            before
        }
    }
}

/// The number of positions below `end` at which `guess` holds `letter` and
/// the score is `Correct` or `IncorrectSpot`.
pub open spec fn credited(
    guess: Seq<char>,
    scores: Seq<LetterScore>,
    letter: char,
    end: int,
) -> nat
    decreases end,
{
    if end <= 0 {
        0
    } else {
        let before = credited(guess, scores, letter, end - 1);
        if guess[end - 1] == letter && scores[end - 1] != LetterScore::NotInWord {
            before + 1
        } else {
            before
        }
    }
}

/// The number of positions below `end` at which both words hold `letter`.
pub open spec fn matched(guess: Seq<char>, answer: Seq<char>, letter: char, end: int) -> nat
    decreases end,
{
    if end <= 0 {
        0
    } else {
        let before = matched(guess, answer, letter, end - 1);
        if guess[end - 1] == letter && answer[end - 1] == letter {
            before + 1
        } else {
            before
        }
    }
}

/// A word scored against itself has every letter `Correct`.
pub proof fn lemma_score_of_answer_wins(word: Seq<char>)
    ensures
        letter_scores(word, word).len() == word.len(),
        forall|i: int|
            0 <= i < word.len() ==> letter_scores(word, word)[i] == LetterScore::Correct,
        all_correct(letter_scores(word, word)),
{
}

/// A guess wins exactly if it is the answer.
pub proof fn lemma_wins_iff_answer(guess: Seq<char>, answer: Seq<char>)
    requires
        guess.len() == answer.len(),
    ensures
        all_correct(letter_scores(guess, answer)) <==> guess == answer,
{
    if all_correct(letter_scores(guess, answer)) {
        assert forall|i: int| 0 <= i < guess.len() implies guess[i] == answer[i] by {
            assert(letter_scores(guess, answer)[i] == LetterScore::Correct);
        }
        assert(guess =~= answer);
    }
}

/// The occurrences of `letter` in the answer are those with an exact match
/// and those that are left for letters in other positions.
pub proof fn lemma_occurrences_split(
    guess: Seq<char>,
    answer: Seq<char>,
    letter: char,
    end: int,
)
    ensures
        occurrences(answer, letter, end) == matched(guess, answer, letter, end) + misplaced(
            answer,
            guess,
            letter,
            end,
        ),
    decreases end,
{
    if end > 0 {
        lemma_occurrences_split(guess, answer, letter, end - 1);
    }
}

/// The letters `letter` of the guess that are credited below `end` are its
/// exact matches and, of the others, as many as the answer has occurrences
/// left for them.
pub proof fn lemma_credited_count(guess: Seq<char>, answer: Seq<char>, letter: char, end: int)
    requires
        guess.len() == answer.len(),
        0 <= end <= guess.len(),
    ensures
        credited(guess, letter_scores(guess, answer), letter, end) == matched(
            guess,
            answer,
            letter,
            end,
        ) + smaller(
            misplaced(guess, answer, letter, end),
            misplaced(answer, guess, letter, answer.len() as int),
        ),
    decreases end,
{
    if end > 0 {
        lemma_credited_count(guess, answer, letter, end - 1);
        assert(letter_scores(guess, answer)[end - 1] == score_at(guess, answer, end - 1));
    }
}

/// For every letter, the positions of the guess that hold it and are not
/// scored `NotInWord` are at most as many as the answer's occurrences of it.
pub proof fn lemma_credit_bounded(guess: Seq<char>, answer: Seq<char>, letter: char)
    requires
        guess.len() == answer.len(),
    ensures
        credited(guess, letter_scores(guess, answer), letter, guess.len() as int) <= occurrences(
            answer,
            letter,
            answer.len() as int,
        ),
{
    lemma_credited_count(guess, answer, letter, guess.len() as int);
    lemma_occurrences_split(guess, answer, letter, answer.len() as int);
}

/// A letter that the answer does not hold is scored `NotInWord`.
pub proof fn lemma_absent_letter(guess: Seq<char>, answer: Seq<char>, i: int)
    requires
        guess.len() == answer.len(),
        0 <= i < guess.len(),
        occurrences(answer, guess[i], answer.len() as int) == 0,
    ensures
        letter_scores(guess, answer)[i] == LetterScore::NotInWord,
{
    lemma_occurrences_split(guess, answer, guess[i], answer.len() as int);
    if answer[i] == guess[i] {
        lemma_occurrence_at(answer, guess[i], i, answer.len() as int);
    }
}

/// A position below `end` that holds `letter` makes the count positive.
pub proof fn lemma_occurrence_at(word: Seq<char>, letter: char, i: int, end: int)
    requires
        0 <= i < end,
        word[i] == letter,
    ensures
        occurrences(word, letter, end) > 0,
    decreases end,
{
    if i < end - 1 {
        lemma_occurrence_at(word, letter, i, end - 1);
    }
}

} // verus!
