use wordle::scoring::score;
use wordle::GuessResponse;
use wordle::LetterScore::{self, Correct, IncorrectSpot, NotInWord};

fn respond(guess: &str, answer: &str) -> GuessResponse {
    GuessResponse::new(&guess.to_string(), &answer.to_string())
}

fn credited(guess: &str, scores: &[LetterScore], letter: char) -> usize {
    guess
        .chars()
        .zip(scores.iter())
        .filter(|(l, s)| *l == letter && **s != NotInWord)
        .count()
}

#[test]
fn the_answer_itself_is_all_correct() {
    let response = respond("CRANE", "CRANE");
    assert_eq!(response.letter_scores(), &vec![Correct; 5]);
    assert!(response.is_winning());
}

#[test]
fn every_word_scored_against_itself_wins() {
    for word in ["ALLOW", "SPEED", "AAAAA", "QUEUE", "ZZZZA"] {
        let scores = score(word, word);
        assert_eq!(scores, vec![Correct; 5]);
        assert!(respond(word, word).is_winning());
    }
}

#[test]
fn letters_elsewhere_are_found() {
    let response = respond("REACT", "CRANE");
    assert_eq!(
        response.letter_scores(),
        &vec![IncorrectSpot, IncorrectSpot, Correct, IncorrectSpot, NotInWord]
    );
    assert!(!response.is_winning());
}

#[test]
fn each_occurrence_in_the_answer_serves_one_letter() {
    let response = respond("ERASE", "SPEED");
    assert_eq!(
        response.letter_scores(),
        &vec![IncorrectSpot, NotInWord, NotInWord, IncorrectSpot, IncorrectSpot]
    );
    assert_eq!(credited("ERASE", response.letter_scores(), 'E'), 2);
}

#[test]
fn a_single_letter_is_credited_once_against_two_occurrences() {
    let response = respond("EMAIL", "SPEED");
    assert_eq!(
        response.letter_scores(),
        &vec![IncorrectSpot, NotInWord, NotInWord, NotInWord, NotInWord]
    );
    assert_eq!(credited("EMAIL", response.letter_scores(), 'E'), 1);
}

#[test]
fn repeated_letters_are_not_credited_twice() {
    let response = respond("LLAMA", "ALLOW");
    assert_eq!(
        response.letter_scores(),
        &vec![IncorrectSpot, Correct, IncorrectSpot, NotInWord, NotInWord]
    );
    assert_eq!(credited("LLAMA", response.letter_scores(), 'L'), 2);
    assert_eq!(credited("LLAMA", response.letter_scores(), 'A'), 1);
}

#[test]
fn an_exact_match_is_not_given_away() {
    // The only L of the answer is matched exactly by the second L of the
    // guess, so the first L finds nothing.
    assert_eq!(
        score("LLAMA", "ALOOF"),
        vec![NotInWord, Correct, IncorrectSpot, NotInWord, NotInWord]
    );
    // One E of the answer is matched exactly; the other serves the first
    // E of the guess, and the third E of the guess finds nothing.
    assert_eq!(
        score("EEEAA", "BEEBB"),
        vec![NotInWord, Correct, Correct, NotInWord, NotInWord]
    );
    assert_eq!(
        score("EBEEA", "BESTE"),
        vec![IncorrectSpot, IncorrectSpot, IncorrectSpot, NotInWord, NotInWord]
    );
}

#[test]
fn credit_never_exceeds_the_occurrences_in_the_answer() {
    let words = ["ALLOW", "LLAMA", "SPEED", "ERASE", "EERIE", "GEESE", "AAAAA", "ABABA", "BABAB"];
    for guess in words {
        for answer in words {
            let scores = score(guess, answer);
            assert_eq!(scores.len(), 5);
            for letter in guess.chars() {
                let held = answer.chars().filter(|l| *l == letter).count();
                assert!(credited(guess, &scores, letter) <= held);
            }
        }
    }
}

#[test]
fn one_score_for_each_letter() {
    assert_eq!(score("", "").len(), 0);
    assert_eq!(score("AB", "BA"), vec![IncorrectSpot, IncorrectSpot]);
    assert_eq!(score("ABCDEFG", "GFEDCBA").len(), 7);
    let response = respond("REACT", "CRANE");
    assert_eq!(response.letter_scores().len(), response.guess().chars().count());
}

#[test]
fn scoring_twice_gives_the_same_response() {
    let first = respond("ERASE", "SPEED");
    let second = respond("ERASE", "SPEED");
    assert_eq!(first.guess(), second.guess());
    assert_eq!(first.letter_scores(), second.letter_scores());
    assert_eq!(first.render(), second.render());
}

#[test]
fn the_guess_is_put_in_upper_case() {
    let response = respond("crane", "CRANE");
    assert_eq!(response.guess(), "CRANE");
    assert!(response.is_winning());
    let response = respond("rEaCt", "CRANE");
    assert_eq!(response.guess(), "REACT");
    assert_eq!(
        response.letter_scores(),
        &vec![IncorrectSpot, IncorrectSpot, Correct, IncorrectSpot, NotInWord]
    );
}

#[test]
fn upper_case_may_add_letters() {
    // The sharp s becomes two letters.
    let response = respond("a\u{df}et", "ASSET");
    assert_eq!(response.guess(), "ASSET");
    assert!(response.is_winning());
}

#[test]
fn the_answer_is_taken_as_it_is() {
    let response = GuessResponse::scored("CRANE".to_string(), "crane");
    assert_eq!(response.letter_scores(), &vec![NotInWord; 5]);
    assert!(!response.is_winning());
}

#[test]
fn a_response_is_shown_in_colours() {
    let response = respond("REACT", "CRANE");
    assert_eq!(
        response.render(),
        "  \x1b[1;33mR\x1b[1;33mE\x1b[1;32mA\x1b[1;33mC\x1b[1;31mT\x1b[0m"
    );
    let response = GuessResponse::scored("crane".to_string(), "crane");
    assert_eq!(
        response.render(),
        "  \x1b[1;32mC\x1b[1;32mR\x1b[1;32mA\x1b[1;32mN\x1b[1;32mE\x1b[0m"
    );
}

#[test]
fn the_three_scores_have_three_colours() {
    assert_eq!(Correct.color(), "\x1b[1;32m");
    assert_eq!(IncorrectSpot.color(), "\x1b[1;33m");
    assert_eq!(NotInWord.color(), "\x1b[1;31m");
}
