//! The set of words that may be answers or guesses.
use vstd::prelude::*;

use rand::seq::SliceRandom;

use crate::text::push_char;
use crate::GUESS_LENGTH;

verus! {

/// `w` is the line of `src` that starts at `s`: the characters before and
/// after it are line breaks or the ends of `src`.
pub open spec fn is_line_at(src: Seq<char>, w: Seq<char>, s: int) -> bool {
    &&& 0 <= s
    &&& s + w.len() <= src.len()
    &&& src.subrange(s, s + w.len()) == w
    &&& (s == 0 || src[s - 1] == '\n')
    &&& (s + w.len() == src.len() || src[s + w.len()] == '\n')
    &&& !w.contains('\n')
}

/// `w` is one of the lines of `src`.
pub open spec fn is_line(src: Seq<char>, w: Seq<char>) -> bool {
    exists|s: int| is_line_at(src, w, s)
}

/// `w` is a line of `src` that ends before position `i`.
pub open spec fn is_line_before(src: Seq<char>, w: Seq<char>, i: int) -> bool {
    exists|s: int| is_line_at(src, w, s) && s + w.len() < i
}

/// `w` is one of `words`.
pub open spec fn listed(words: Seq<String>, w: Seq<char>) -> bool {
    exists|k: int| 0 <= k < words.len() && words[k]@ == w
}

/// Where the line that starts at `start` ends at `i`, the lines that end
/// by `i` are those that end before `i`, and that one.
proof fn lemma_line_ends(src: Seq<char>, w: Seq<char>, start: int, i: int)
    requires
        0 <= start <= i <= src.len(),
        start == 0 || src[start - 1] == '\n',
        forall|k: int| start <= k < i ==> src[k] != '\n',
        i == src.len() || src[i] == '\n',
    ensures
        is_line_before(src, w, i + 1) <==> (is_line_before(src, w, i) || w == src.subrange(
            start,
            i,
        )),
{
    if is_line_before(src, w, i + 1) && !is_line_before(src, w, i) {
        let s = choose|s: int| is_line_at(src, w, s) && s + w.len() < i + 1;
        if s < start {
            assert(w[start - 1 - s] == src[start - 1]);
            assert(w.contains('\n'));
        } else if s > start {
            assert(src[s - 1] == '\n');
        }
        assert(s == start);
    }
    if w == src.subrange(start, i) {
        assert(!w.contains('\n')) by {
            if w.contains('\n') {
                let k = choose|k: int| 0 <= k < w.len() && w[k] == '\n';
                assert(src[start + k] == '\n');
            }
        }
        assert(is_line_at(src, w, start));
    }
}

/// A line cannot end where a character other than a line break stands.
proof fn lemma_no_line_ends(src: Seq<char>, w: Seq<char>, i: int)
    requires
        0 <= i < src.len(),
        src[i] != '\n',
    ensures
        is_line_before(src, w, i + 1) == is_line_before(src, w, i),
{
    if is_line_before(src, w, i + 1) {
        let s = choose|s: int| is_line_at(src, w, s) && s + w.len() < i + 1;
        assert(s + w.len() != i);
    }
}

/// A dictionary of distinct words, each `GUESS_LENGTH` letters long.
pub struct Dictionary {
    words: Vec<String>,
}

impl Dictionary {
    /// The words, in the order in which they were loaded.
    pub closed spec fn entries(&self) -> Seq<String> {
        self.words@
    }

    /// `w` is in the dictionary.
    pub open spec fn has(&self, w: Seq<char>) -> bool {
        listed(self.entries(), w)
    }

    /// Every word has the right length, and none occurs twice.
    pub open spec fn wf(&self) -> bool {
        &&& forall|k: int| 0 <= k < self.entries().len() ==> (#[trigger] self.entries()[k])@.len()
            == GUESS_LENGTH
        &&& forall|j: int, k: int|
            0 <= j < k < self.entries().len() ==> self.entries()[j]@ != self.entries()[k]@
    }

    /// Loads a dictionary from a list of words, one per line. Lines that are
    /// not `GUESS_LENGTH` characters long are left out, and a word that occurs
    /// on several lines is kept once.
    pub fn new(source: &str) -> (d: Dictionary)
        ensures
            d.wf(),
            forall|w: Seq<char>| #[trigger]
                d.has(w) <==> (w.len() == GUESS_LENGTH && is_line(source@, w)),
    {
        let n = source.unicode_len();
        let mut words: Vec<String> = Vec::new();
        let mut current = String::new();
        let ghost mut start: int = 0;
        let mut i: usize = 0;
        while i < n
            invariant
                n == source@.len(),
                0 <= start <= i <= n,
                current@ == source@.subrange(start, i as int),
                start == 0 || source@[start - 1] == '\n',
                forall|k: int| start <= k < i ==> source@[k] != '\n',
                forall|k: int| 0 <= k < words@.len() ==> (#[trigger] words@[k])@.len() == GUESS_LENGTH,
                forall|j: int, k: int| 0 <= j < k < words@.len() ==> words@[j]@ != words@[k]@,
                forall|w: Seq<char>| #[trigger]
                    listed(words@, w) <==> (w.len() == GUESS_LENGTH && is_line_before(
                        source@,
                        w,
                        i as int,
                    )),
            decreases n - i,
        {
            let c = source.get_char(i);
            proof {
                if c == '\n' {
                    assert forall|w: Seq<char>| #[trigger]
                        is_line_before(source@, w, i + 1) <==> (is_line_before(source@, w, i as int)
                            || w == current@) by {
                        lemma_line_ends(source@, w, start, i as int);
                    }
                } else {
                    assert forall|w: Seq<char>| #[trigger]
                        is_line_before(source@, w, i + 1) == is_line_before(source@, w, i as int) by {
                        lemma_no_line_ends(source@, w, i as int);
                    }
                }
            }
            let ghost old_words = words@;
            if c == '\n' {
                if current.unicode_len() == GUESS_LENGTH && !contains_word(&words, &current) {
                    words.push(current);
                    proof {
                        assert forall|w: Seq<char>| #[trigger]
                            listed(words@, w) <==> (listed(old_words, w) || w == current@) by {
                            if listed(words@, w) && w != current@ {
                                let k = choose|k: int| 0 <= k < words@.len() && words@[k]@ == w;
                                assert(old_words[k] == words@[k]);
                            }
                            if listed(old_words, w) {
                                let k = choose|k: int| 0 <= k < old_words.len() && old_words[k]@ == w;
                                assert(words@[k] == old_words[k]);
                            }
                            if w == current@ {
                                assert(words@[words@.len() - 1]@ == w);
                            }
                        }
                    }
                }
                current = String::new();
                proof {
                    start = i + 1;
                }
            } else {
                push_char(&mut current, c);
            }
            i = i + 1;
        }
        proof {
            assert forall|w: Seq<char>| #[trigger]
                is_line_before(source@, w, n + 1) <==> (is_line_before(source@, w, n as int)
                    || w == current@) by {
                lemma_line_ends(source@, w, start, n as int);
            }
            assert forall|w: Seq<char>| #[trigger] is_line(source@, w) == is_line_before(source@, w, n + 1) by {
                if is_line(source@, w) {
                    let s = choose|s: int| is_line_at(source@, w, s);
                    assert(s + w.len() < n + 1);
                }
            }
        }
        let ghost old_words = words@;
        if current.unicode_len() == GUESS_LENGTH && !contains_word(&words, &current) {
            words.push(current);
            proof {
                assert forall|w: Seq<char>| #[trigger]
                    listed(words@, w) <==> (listed(old_words, w) || w == current@) by {
                    if listed(words@, w) && w != current@ {
                        let k = choose|k: int| 0 <= k < words@.len() && words@[k]@ == w;
                        assert(old_words[k] == words@[k]);
                    }
                    if listed(old_words, w) {
                        let k = choose|k: int| 0 <= k < old_words.len() && old_words[k]@ == w;
                        assert(words@[k] == old_words[k]);
                    }
                    if w == current@ {
                        assert(words@[words@.len() - 1]@ == w);
                    }
                }
            }
        }
        Dictionary { words }
    }

    /// One of the words, drawn at random; `None` when the dictionary is empty.
    pub fn get_random_word(&self) -> (r: Option<String>)
        ensures
            r is None <==> self.entries().len() == 0,
            r matches Some(w) ==> self.has(w@),
    {
        match choose_word(&self.words) {
            Some(w) => Some(w.clone()),
            None => None,
        }
    }

    /// Whether `word` is in the dictionary.
    pub fn contains(&self, word: &str) -> (r: bool)
        ensures
            r == self.has(word@),
    {
        let w = word.to_owned();
        contains_word(&self.words, &w)
    }
}

/// Relies on rand's `SliceRandom::choose` with the thread-local generator:
/// `None` for an empty slice, otherwise one of its elements.
#[verifier::external_body]
fn choose_word(words: &Vec<String>) -> (r: Option<&String>)
    ensures
        r is None <==> words@.len() == 0,
        r matches Some(w) ==> exists|k: int| 0 <= k < words@.len() && words@[k] == *w,
{
    words.as_slice().choose(&mut rand::thread_rng())
}

/// Whether `word` is one of `words`.
fn contains_word(words: &Vec<String>, word: &String) -> (r: bool)
    ensures
        r == listed(words@, word@),
{
    let mut k: usize = 0;
    while k < words.len()
        invariant
            k <= words.len(),
            forall|j: int| 0 <= j < k ==> words@[j]@ != word@,
        decreases words.len() - k,
    {
        if words[k] == *word {
            return true;
        }
        k = k + 1;
    }
    false
}

} // verus!
