use wordle::text::{letters, string_of, to_ascii_upper};
use wordle::{is_valid_word, Dictionary, LoadError, WORD_LENGTH};

fn load(text: &str) -> Dictionary {
    match Dictionary::load(text) {
        Ok(dictionary) => dictionary,
        Err(error) => panic!("{:?}", error),
    }
}

fn words(dictionary: &Dictionary) -> Vec<String> {
    (0..dictionary.len()).map(|i| dictionary.word_at(i).unwrap()).collect()
}

#[test]
fn a_word_has_five_letters() {
    assert_eq!(WORD_LENGTH, 5);
}

#[test]
fn a_list_is_read_line_by_line() {
    let dictionary = load("CRANE\nREACT\nSPEED\n");
    assert_eq!(dictionary.len(), 3);
    assert_eq!(words(&dictionary), vec!["CRANE", "REACT", "SPEED"]);
}

#[test]
fn the_last_line_needs_no_line_feed() {
    let dictionary = load("CRANE\nREACT");
    assert_eq!(words(&dictionary), vec!["CRANE", "REACT"]);
    let dictionary = load("CRANE");
    assert_eq!(words(&dictionary), vec!["CRANE"]);
}

#[test]
fn a_carriage_return_before_the_line_feed_is_dropped() {
    let dictionary = load("CRANE\r\nREACT\r\n");
    assert_eq!(words(&dictionary), vec!["CRANE", "REACT"]);
}

#[test]
fn a_carriage_return_elsewhere_is_a_letter() {
    assert_eq!(Dictionary::load("CRAN\r").err(), None);
    assert_eq!(Dictionary::load("CRANE\r").err(), Some(LoadError::WrongLength { line: 0 }));
    assert_eq!(
        Dictionary::load("REACT\nCRANE\r\r\n").err(),
        Some(LoadError::WrongLength { line: 1 })
    );
}

#[test]
fn words_are_put_in_upper_case() {
    let dictionary = load("crane\nReact\n");
    assert_eq!(words(&dictionary), vec!["CRANE", "REACT"]);
}

#[test]
fn a_repeated_word_is_entered_once() {
    let dictionary = load("CRANE\nREACT\ncrane\nSPEED\nREACT\n");
    assert_eq!(dictionary.len(), 3);
    assert_eq!(words(&dictionary), vec!["CRANE", "REACT", "SPEED"]);
}

#[test]
fn an_empty_list_is_refused() {
    assert_eq!(Dictionary::load("").err(), Some(LoadError::Empty));
}

#[test]
fn a_word_of_another_length_is_refused() {
    assert_eq!(Dictionary::load("CRANE\nTOOLONG\n").err(), Some(LoadError::WrongLength { line: 1 }));
    assert_eq!(Dictionary::load("CAT\nCRANE\n").err(), Some(LoadError::WrongLength { line: 0 }));
    assert_eq!(
        Dictionary::load("CRANE\nREACT\nCAT\nTOOLONG\n").err(),
        Some(LoadError::WrongLength { line: 2 })
    );
    assert_eq!(Dictionary::load("CRANE\nREACT\nSPEE").err(), Some(LoadError::WrongLength { line: 2 }));
}

#[test]
fn an_empty_line_is_refused() {
    assert_eq!(Dictionary::load("\n").err(), Some(LoadError::WrongLength { line: 0 }));
    assert_eq!(Dictionary::load("CRANE\n\nREACT\n").err(), Some(LoadError::WrongLength { line: 1 }));
    assert_eq!(Dictionary::load("CRANE\n\n").err(), Some(LoadError::WrongLength { line: 1 }));
}

#[test]
fn length_is_counted_in_letters_of_the_upper_case_form() {
    // Four letters, of which the sharp s becomes two.
    let dictionary = load("a\u{df}et\n");
    assert_eq!(words(&dictionary), vec!["ASSET"]);
    // Five letters that become six.
    assert_eq!(Dictionary::load("stra\u{df}\n").err(), Some(LoadError::WrongLength { line: 0 }));
    // Five letters in ten bytes.
    let dictionary = load("\u{e9}\u{e9}\u{e9}\u{e9}\u{e9}\n");
    assert_eq!(words(&dictionary), vec!["\u{c9}\u{c9}\u{c9}\u{c9}\u{c9}"]);
}

#[test]
fn membership_ignores_case() {
    let dictionary = load("CRANE\nREACT\n");
    assert!(dictionary.contains("CRANE"));
    assert!(dictionary.contains("crane"));
    assert!(dictionary.contains("rEaCt"));
    assert!(!dictionary.contains("SPEED"));
    assert!(!dictionary.contains("CRAN"));
    assert!(!dictionary.contains("CRANES"));
    assert!(!dictionary.contains(""));
}

#[test]
fn valid_words_are_those_of_the_dictionary() {
    let dictionary = load("CRANE\nREACT\n");
    assert!(is_valid_word(&dictionary, &"react".to_string()));
    assert!(is_valid_word(&dictionary, &"CRANE".to_string()));
    assert!(!is_valid_word(&dictionary, &"speed".to_string()));
    assert!(!is_valid_word(&dictionary, &"CRANE ".to_string()));
}

#[test]
fn words_are_found_by_index() {
    let dictionary = load("CRANE\nREACT\n");
    assert_eq!(dictionary.word_at(0), Some("CRANE".to_string()));
    assert_eq!(dictionary.word_at(1), Some("REACT".to_string()));
    assert_eq!(dictionary.word_at(2), None);
    assert_eq!(dictionary.word_at(usize::MAX), None);
}

#[test]
fn the_only_word_is_the_one_drawn() {
    let dictionary = load("CRANE\n");
    let mut rng = rand::thread_rng();
    for _ in 0..20 {
        assert_eq!(dictionary.random_word(&mut rng), "CRANE");
    }
}

#[test]
fn a_drawn_word_is_in_the_dictionary() {
    let dictionary = load("CRANE\nREACT\nSPEED\nALLOW\nLLAMA\n");
    let mut rng = rand::thread_rng();
    let mut seen = Vec::new();
    for _ in 0..400 {
        let word = dictionary.random_word(&mut rng);
        assert!(dictionary.contains(&word));
        assert!(words(&dictionary).contains(&word));
        if !seen.contains(&word) {
            seen.push(word);
        }
    }
    // Each of five words is missed in 400 draws with a chance below 1e-38.
    assert_eq!(seen.len(), 5);
}

#[test]
fn letters_and_strings_convert_both_ways() {
    assert_eq!(letters("CRANE"), vec!['C', 'R', 'A', 'N', 'E']);
    assert_eq!(letters(""), Vec::<char>::new());
    assert_eq!(letters("a\u{df}"), vec!['a', '\u{df}']);
    let crane = vec!['C', 'R', 'A', 'N', 'E'];
    assert_eq!(string_of(&crane, 5), "CRANE");
    assert_eq!(string_of(&crane, 3), "CRA");
    assert_eq!(string_of(&crane, 0), "");
}

#[test]
fn only_small_latin_letters_change() {
    assert_eq!(to_ascii_upper('a'), 'A');
    assert_eq!(to_ascii_upper('z'), 'Z');
    assert_eq!(to_ascii_upper('m'), 'M');
    assert_eq!(to_ascii_upper('A'), 'A');
    assert_eq!(to_ascii_upper('Z'), 'Z');
    assert_eq!(to_ascii_upper('`'), '`');
    assert_eq!(to_ascii_upper('{'), '{');
    assert_eq!(to_ascii_upper('5'), '5');
    assert_eq!(to_ascii_upper('\u{df}'), '\u{df}');
    assert_eq!(to_ascii_upper('\u{e9}'), '\u{e9}');
}
