//! The dictionary: the words that may be guessed and from which the answer
//! is drawn.

use vstd::prelude::*;
use rand::rngs::ThreadRng;
use crate::random::choose_index;
use crate::text::{letters, lines, lines_from, string_of, uppercase, without_carriage_return};

verus! {

/// The number of letters of every word of the game.
pub const WORD_LENGTH: usize = 5;

/// Why a word list cannot serve as a dictionary.
#[derive(Clone, Copy, Debug, PartialEq, Eq, Structural)]
pub enum LoadError {
    /// The list has no line.
    Empty,
    /// The line with this index, counted from zero, does not have the
    /// length of a word.
    WrongLength { line: usize },
}

/// The entries of a word list: its lines in upper case.
pub open spec fn entries(text: Seq<char>) -> Seq<Seq<char>> {
    normalized(lines(text))
}

/// Each of `raw` in upper case.
pub open spec fn normalized(raw: Seq<Seq<char>>) -> Seq<Seq<char>> {
    Seq::new(raw.len(), |i: int| uppercase(raw[i]))
}

/// `words` with `word` at its end, unless `words` holds it already.
pub open spec fn with_word(words: Seq<Seq<char>>, word: Seq<char>) -> Seq<Seq<char>> {
    if words.contains(word) {
        words
    } else {
        words.push(word)
    }
}

/// `words` without repetitions: of equal words the first stays.
pub open spec fn distinct(words: Seq<Seq<char>>) -> Seq<Seq<char>>
    decreases words.len(),
{
    if words.len() == 0 {
        Seq::empty()
    } else {
        with_word(distinct(words.drop_last()), words.last())
    }
}

/// What holds of the words of every dictionary: there is at least one,
/// each has the length of a word, and none occurs twice.
pub open spec fn is_word_list(words: Seq<Seq<char>>) -> bool {
    &&& words.len() > 0
    &&& forall|i: int| 0 <= i < words.len() ==> (#[trigger] words[i]).len() == WORD_LENGTH
    &&& words.no_duplicates()
}

/// The letters of each string of `words`.
pub open spec fn word_views(words: Seq<String>) -> Seq<Seq<char>> {
    Seq::new(words.len(), |i: int| words[i]@)
}

/// `with_word` holds the words of the list and the new word, and repeats
/// none if the list repeats none.
pub proof fn lemma_with_word(words: Seq<Seq<char>>, word: Seq<char>)
    ensures
        forall|other: Seq<char>|
            with_word(words, word).contains(other) <==> words.contains(other) || other == word,
        words.no_duplicates() ==> with_word(words, word).no_duplicates(),
{
    let grown = with_word(words, word);
    assert forall|other: Seq<char>| grown.contains(other) <==> words.contains(other) || other
        == word by {
        if words.contains(other) {
            let i = choose|i: int| 0 <= i < words.len() && words[i] == other;
            assert(grown[i] == other);
        }
        if other == word && !words.contains(word) {
            assert(grown[words.len() as int] == other);
        }
        if grown.contains(other) && other != word {
            let i = choose|i: int| 0 <= i < grown.len() && grown[i] == other;
            assert(words[i] == other);
        }
    }
}

/// `distinct` keeps exactly the words of the list, each once.
pub proof fn lemma_distinct(words: Seq<Seq<char>>)
    ensures
        distinct(words).no_duplicates(),
        distinct(words).len() <= words.len(),
        forall|word: Seq<char>| distinct(words).contains(word) <==> words.contains(word),
    decreases words.len(),
{
    if words.len() > 0 {
        let front = words.drop_last();
        lemma_distinct(front);
        lemma_with_word(distinct(front), words.last());
        assert forall|word: Seq<char>| distinct(words).contains(word) <==> words.contains(
            word,
        ) by {
            if words.contains(word) && word != words.last() {
                let i = choose|i: int| 0 <= i < words.len() && words[i] == word;
                assert(front[i] == word);
            }
            if front.contains(word) {
                let i = choose|i: int| 0 <= i < front.len() && front[i] == word;
                assert(words[i] == word);
            }
            assert(words[words.len() - 1] == words.last());
        }
    }
}

/// A dictionary: a list of distinct upper-case words of `WORD_LENGTH`
/// letters, with at least one word. It does not change once it is loaded.
#[derive(Debug)]
pub struct Dictionary {
    words: Vec<String>,
}

impl View for Dictionary {
    type V = Seq<Seq<char>>;

    /// The words in the order of the list they were loaded from.
    closed spec fn view(&self) -> Seq<Seq<char>> {
        word_views(self.words@)
    }
}

/// Whether one of `words` has the letters of `word`.
fn holds(words: &Vec<String>, word: &String) -> (found: bool)
    ensures
        found == word_views(words@).contains(word@),
{
    let mut i: usize = 0;
    while i < words.len()
        invariant
            i <= words@.len(),
            forall|k: int| 0 <= k < i ==> word_views(words@)[k] != word@,
        decreases words@.len() - i,
    {
        if words[i] == *word {
            assert(word_views(words@)[i as int] == word@);
            return true;
        }
        i += 1;
    }
    false
}

/// Takes the first `end` letters of `line` as an entry: if its upper-case
/// form has the length of a word it joins `words`, unless it is there
/// already. Says whether the length was right.
fn enter(words: &mut Vec<String>, line: &Vec<char>, end: usize) -> (fits: bool)
    requires
        end <= line@.len(),
    ensures
        fits == (uppercase(line@.take(end as int)).len() == WORD_LENGTH),
        fits ==> word_views(final(words)@) == with_word(
            word_views(old(words)@),
            uppercase(line@.take(end as int)),
        ),
        !fits ==> final(words)@ == old(words)@,
{
    let raw = string_of(line, end);
    let word = raw.as_str().to_uppercase();
    if word.as_str().unicode_len() != WORD_LENGTH {
        return false;
    }
    if !holds(words, &word) {
        words.push(word);
        assert(word_views(words@) =~= word_views(old(words)@).push(word@));
    }
    true
}

impl Dictionary {
    #[verifier::type_invariant]
    spec fn well_formed(&self) -> bool {
        is_word_list(self@)
    }

    /// Reads a dictionary from a word list with one word per line.
    ///
    /// Every line is put in upper case. The list is refused if it has no
    /// line, or if a line does not then have `WORD_LENGTH` letters; the
    /// error names the first such line. A word that occurs again is
    /// entered once.
    pub fn load(text: &str) -> (result: Result<Dictionary, LoadError>)
        ensures
            match result {
                Ok(dictionary) => {
                    &&& entries(text@).len() > 0
                    &&& forall|k: int|
                        0 <= k < entries(text@).len() ==> entries(text@)[k].len() == WORD_LENGTH
                    &&& dictionary@ == distinct(entries(text@))
                    &&& is_word_list(dictionary@)
                },
                Err(LoadError::Empty) => entries(text@).len() == 0,
                Err(LoadError::WrongLength { line }) => {
                    &&& line < entries(text@).len()
                    &&& entries(text@)[line as int].len() != WORD_LENGTH
                    &&& forall|k: int| 0 <= k < line ==> entries(text@)[k].len() == WORD_LENGTH
                },
            },
    {
        let all = letters(text);
        let n = all.len();
        let mut words: Vec<String> = Vec::new();
        let mut current: Vec<char> = Vec::new();
        let mut count: usize = 0;
        let ghost mut done: Seq<Seq<char>> = Seq::empty();
        let mut i: usize = 0;
        proof {
            assert(lines(text@) =~= done + lines_from(text@, 0, current@));
            assert(word_views(words@) =~= distinct(normalized(done)));
        }
        while i < n
            invariant
                i <= n,
                n == all@.len(),
                all@ == text@,
                count == done.len(),
                count <= i,
                lines(text@) == done + lines_from(text@, i as int, current@),
                forall|k: int| 0 <= k < done.len() ==> uppercase(done[k]).len() == WORD_LENGTH,
                word_views(words@) == distinct(normalized(done)),
            decreases n - i,
        {
            let letter = all[i];
            if letter == '\n' {
                let length = current.len();
                let end = if length > 0 && current[length - 1] == '\r' {
                    length - 1
                } else {
                    length
                };
                let ghost line = without_carriage_return(current@);
                assert(line =~= current@.take(end as int));
                let ghost rest = lines_from(text@, i + 1, Seq::empty());
                assert(lines(text@) =~= done.push(line) + rest);
                let fits = enter(&mut words, &current, end);
                if !fits {
                    proof {
                        lemma_entries_prefix(text@, done.push(line), rest);
                    }
                    return Err(LoadError::WrongLength { line: count });
                }
                proof {
                    lemma_distinct_push(normalized(done), uppercase(line));
                    assert(normalized(done.push(line)) =~= normalized(done).push(uppercase(line)));
                    done = done.push(line);
                }
                current = Vec::new();
                count += 1;
            } else {
                current.push(letter);
            }
            i += 1;
        }
        if current.len() > 0 {
            let ghost line = current@;
            assert(line =~= current@.take(current@.len() as int));
            assert(lines(text@) =~= done.push(line) + Seq::<Seq<char>>::empty());
            let fits = enter(&mut words, &current, current.len());
            if !fits {
                proof {
                    lemma_entries_prefix(text@, done.push(line), Seq::empty());
                }
                return Err(LoadError::WrongLength { line: count });
            }
            proof {
                lemma_distinct_push(normalized(done), uppercase(line));
                assert(normalized(done.push(line)) =~= normalized(done).push(uppercase(line)));
                done = done.push(line);
            }
        }
        proof {
            assert(lines(text@) =~= done);
            lemma_distinct(entries(text@));
            lemma_distinct_nonempty(entries(text@));
        }
        if words.len() == 0 {
            return Err(LoadError::Empty);
        }
        proof {
            assert forall|k: int| 0 <= k < word_views(words@).len() implies (
            #[trigger] word_views(words@)[k]).len() == WORD_LENGTH by {
                let word = word_views(words@)[k];
                assert(distinct(entries(text@)).contains(word));
                assert(entries(text@).contains(word));
            }
        }
        Ok(Dictionary { words })
    }

    /// The number of words.
    pub fn len(&self) -> (count: usize)
        ensures
            count == self@.len(),
            count > 0,
    {
        proof {
            use_type_invariant(self);
        }
        self.words.len()
    }

    /// Whether the upper-case form of `candidate` is a word of the
    /// dictionary. A candidate that is one has `WORD_LENGTH` letters in
    /// upper case.
    pub fn contains(&self, candidate: &str) -> (found: bool)
        ensures
            found == self@.contains(uppercase(candidate@)),
            found ==> uppercase(candidate@).len() == WORD_LENGTH,
    {
        proof {
            use_type_invariant(self);
        }
        let word = candidate.to_uppercase();
        holds(&self.words, &word)
    }

    /// The word with the given index, if the dictionary has that many.
    pub fn word_at(&self, index: usize) -> (word: Option<String>)
        ensures
            match word {
                Some(w) => index < self@.len() && w@ == self@[index as int] && w@.len()
                    == WORD_LENGTH,
                None => index >= self@.len(),
            },
    {
        proof {
            use_type_invariant(self);
        }
        if index < self.words.len() {
            let word = self.words[index].clone();
            assert(word@ == word_views(self.words@)[index as int]);
            Some(word)
        } else {
            None
        }
    }

    /// A word of the dictionary, drawn with `rng`.
    pub fn random_word(&self, rng: &mut ThreadRng) -> (word: String)
        ensures
            self@.contains(word@),
            word@.len() == WORD_LENGTH,
    {
        proof {
            use_type_invariant(self);
        }
        let drawn = choose_index(rng, self.words.len());
        let index = match drawn {
            Some(index) => index,
            None => 0,
        };
        let word = self.words[index].clone();
        assert(word@ == word_views(self.words@)[index as int]);
        word
    }
}

/// Whether the upper-case form of `word` is a word of `dictionary`.
pub fn is_valid_word(dictionary: &Dictionary, word: &String) -> (valid: bool)
    ensures
        valid == dictionary@.contains(uppercase(word@)),
        valid ==> uppercase(word@).len() == WORD_LENGTH,
{
    dictionary.contains(word.as_str())
}

/// Entering one more word after the others.
proof fn lemma_distinct_push(words: Seq<Seq<char>>, word: Seq<char>)
    ensures
        distinct(words.push(word)) == with_word(distinct(words), word),
{
    assert(words.push(word).drop_last() =~= words);
}

/// A list with a word has a word left when repetitions are dropped.
proof fn lemma_distinct_nonempty(words: Seq<Seq<char>>)
    ensures
        words.len() > 0 <==> distinct(words).len() > 0,
    decreases words.len(),
{
    if words.len() > 0 {
        lemma_distinct_nonempty(words.drop_last());
    }
}

/// Where the lines of `text` are `front` followed by `rest`, the entries
/// start with the upper-case forms of `front`.
proof fn lemma_entries_prefix(text: Seq<char>, front: Seq<Seq<char>>, rest: Seq<Seq<char>>)
    requires
        lines(text) == front + rest,
    ensures
        entries(text).len() >= front.len(),
        forall|k: int| 0 <= k < front.len() ==> entries(text)[k] == uppercase(front[k]),
{
}

} // verus!
