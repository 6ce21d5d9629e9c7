//! Scoring as a procedure that marks positions of the answer, and the proof
//! that it gives the scores that the counting rule defines.
//!
//! The procedure keeps one mark per position of the answer. First every
//! position with an exact match is marked. Then the letters of the guess
//! without an exact match are taken from left to right: each looks for the
//! leftmost unmarked position of the answer that holds its letter, and
//! marks it if there is one.

use vstd::prelude::*;
use crate::score::LetterScore;
use crate::scoring::{letter_scores, misplaced, score_at};

verus! {

/// The marks once the exact matches are settled: a position is marked if
/// guess and answer agree there.
pub open spec fn exact_marks(guess: Seq<char>, answer: Seq<char>) -> Seq<bool> {
    Seq::new(answer.len(), |j: int| guess[j] == answer[j])
}

/// The leftmost position from `from` on that is unmarked and at which
/// `answer` holds `letter`; the length of `answer` if there is none.
pub open spec fn first_free(answer: Seq<char>, marks: Seq<bool>, letter: char, from: int) -> int
    decreases answer.len() - from,
{
    if from >= answer.len() {
        answer.len() as int
    } else if !marks[from] && answer[from] == letter {
        from
    } else {
        first_free(answer, marks, letter, from + 1)
    }
}

/// The marks after `letter` has looked for a place: the leftmost free
/// position that holds it is marked, if there is one.
pub open spec fn claim(answer: Seq<char>, marks: Seq<bool>, letter: char) -> Seq<bool> {
    let j = first_free(answer, marks, letter, 0);
    if j < answer.len() {
        marks.update(j, true)
    } else {
        marks
    }
}

/// The marks when the letter at position `i` of the guess has its turn:
/// the exact matches, and what the letters before `i` have claimed.
pub open spec fn marks_before(guess: Seq<char>, answer: Seq<char>, i: int) -> Seq<bool>
    decreases i,
{
    if i <= 0 {
        exact_marks(guess, answer)
    } else {
        let earlier = marks_before(guess, answer, i - 1);
        if guess[i - 1] == answer[i - 1] {
            earlier
        } else {
            claim(answer, earlier, guess[i - 1])
        }
    }
}

/// The score that the marking procedure gives the letter at position `i`.
pub open spec fn marked_score_at(guess: Seq<char>, answer: Seq<char>, i: int) -> LetterScore {
    if guess[i] == answer[i] {
        LetterScore::Correct
    } else if first_free(answer, marks_before(guess, answer, i), guess[i], 0) < answer.len() {
        LetterScore::IncorrectSpot
    } else {
        LetterScore::NotInWord
    }
}

/// The scores that the marking procedure gives, one per position.
pub open spec fn marked_scores(guess: Seq<char>, answer: Seq<char>) -> Seq<LetterScore> {
    Seq::new(guess.len(), |i: int| marked_score_at(guess, answer, i))
}

/// The number of unmarked positions below `end` at which `answer` holds
/// `letter`.
pub open spec fn free_count(answer: Seq<char>, marks: Seq<bool>, letter: char, end: int) -> nat
    decreases end,
{
    if end <= 0 {
        0
    } else {
        let before = free_count(answer, marks, letter, end - 1);
        if !marks[end - 1] && answer[end - 1] == letter {
            before + 1
        } else {
            before
        }
    }
}

/// `first_free` returns a free position that holds `letter`, and no such
/// position lies between `from` and it.
pub proof fn lemma_first_free(answer: Seq<char>, marks: Seq<bool>, letter: char, from: int)
    requires
        0 <= from <= answer.len(),
    ensures
        from <= first_free(answer, marks, letter, from) <= answer.len(),
        first_free(answer, marks, letter, from) < answer.len() ==> {
            &&& !marks[first_free(answer, marks, letter, from)]
            &&& answer[first_free(answer, marks, letter, from)] == letter
        },
        forall|k: int|
            from <= k < first_free(answer, marks, letter, from) ==> marks[k] || answer[k]
                != letter,
    decreases answer.len() - from,
{
    if from < answer.len() && !(!marks[from] && answer[from] == letter) {
        lemma_first_free(answer, marks, letter, from + 1);
    }
}

/// No position below `end` is free for `letter` exactly if the count of
/// such positions is zero.
proof fn lemma_free_count_zero(answer: Seq<char>, marks: Seq<bool>, letter: char, end: int)
    ensures
        free_count(answer, marks, letter, end) == 0 <==> forall|k: int|
            0 <= k < end ==> marks[k] || answer[k] != letter,
    decreases end,
{
    if end > 0 {
        lemma_free_count_zero(answer, marks, letter, end - 1);
    }
}

/// A free position for `letter` exists exactly if the search from the left
/// finds one.
pub proof fn lemma_first_free_found(answer: Seq<char>, marks: Seq<bool>, letter: char)
    ensures
        first_free(answer, marks, letter, 0) < answer.len() <==> free_count(
            answer,
            marks,
            letter,
            answer.len() as int,
        ) > 0,
{
    lemma_first_free(answer, marks, letter, 0);
    lemma_free_count_zero(answer, marks, letter, answer.len() as int);
}

/// Marking a free position `j` takes one from the count of the letter that
/// the answer holds there, and leaves the counts of the other letters.
proof fn lemma_free_count_mark(
    answer: Seq<char>,
    marks: Seq<bool>,
    letter: char,
    j: int,
    end: int,
)
    requires
        0 <= j < marks.len(),
        !marks[j],
        end <= marks.len(),
    ensures
        free_count(answer, marks, letter, end) == free_count(
            answer,
            marks.update(j, true),
            letter,
            end,
        ) + if j < end && answer[j] == letter {
            1nat
        } else {
            0nat
        },
    decreases end,
{
    if end > 0 {
        lemma_free_count_mark(answer, marks, letter, j, end - 1);
    }
}

/// Once the exact matches are marked, the free positions for `letter` are
/// those at which the answer holds it and the guess does not.
proof fn lemma_free_count_exact(guess: Seq<char>, answer: Seq<char>, letter: char, end: int)
    requires
        end <= answer.len(),
    ensures
        free_count(answer, exact_marks(guess, answer), letter, end) == misplaced(
            answer,
            guess,
            letter,
            end,
        ),
    decreases end,
{
    if end > 0 {
        lemma_free_count_exact(guess, answer, letter, end - 1);
    }
}

/// The smaller of two numbers.
pub open spec fn smaller(a: nat, b: nat) -> nat {
    if a <= b {
        a
    } else {
        b
    }
}

/// When the letter at position `i` has its turn, every exact match is
/// marked, and of the occurrences of `letter` that the answer offers, as
/// many are taken as letters before `i` have asked for one.
pub proof fn lemma_marks_before(guess: Seq<char>, answer: Seq<char>, letter: char, i: int)
    requires
        guess.len() == answer.len(),
        0 <= i <= guess.len(),
    ensures
        marks_before(guess, answer, i).len() == answer.len(),
        forall|j: int|
            0 <= j < answer.len() && guess[j] == answer[j] ==> marks_before(guess, answer, i)[j],
        free_count(answer, marks_before(guess, answer, i), letter, answer.len() as int) + smaller(
            misplaced(guess, answer, letter, i),
            misplaced(answer, guess, letter, answer.len() as int),
        ) == misplaced(answer, guess, letter, answer.len() as int),
    decreases i,
{
    let n = answer.len() as int;
    if i <= 0 {
        lemma_free_count_exact(guess, answer, letter, n);
    } else {
        let earlier = marks_before(guess, answer, i - 1);
        lemma_marks_before(guess, answer, letter, i - 1);
        let asking = guess[i - 1];
        if asking != answer[i - 1] {
            let j = first_free(answer, earlier, asking, 0);
            lemma_first_free(answer, earlier, asking, 0);
            lemma_first_free_found(answer, earlier, asking);
            if j < n {
                lemma_free_count_mark(answer, earlier, letter, j, n);
            }
        }
    }
}

/// The marking procedure and the counting rule give every position the
/// same score.
pub proof fn lemma_marked_score_agrees(guess: Seq<char>, answer: Seq<char>, i: int)
    requires
        guess.len() == answer.len(),
        0 <= i < guess.len(),
    ensures
        marked_score_at(guess, answer, i) == score_at(guess, answer, i),
{
    lemma_marks_before(guess, answer, guess[i], i);
    lemma_first_free_found(answer, marks_before(guess, answer, i), guess[i]);
}

/// The marking procedure and the counting rule give the same scores.
pub proof fn lemma_marked_scores_agree(guess: Seq<char>, answer: Seq<char>)
    requires
        guess.len() == answer.len(),
    ensures
        marked_scores(guess, answer) == letter_scores(guess, answer),
{
    assert forall|i: int| 0 <= i < guess.len() implies marked_score_at(guess, answer, i)
        == score_at(guess, answer, i) by {
        lemma_marked_score_agrees(guess, answer, i);
    }
    assert(marked_scores(guess, answer) =~= letter_scores(guess, answer));
}

} // verus!
