//! Scoring a guess against the answer, letter by letter, with each letter of
//! the answer giving credit to at most one letter of the guess.
use vstd::prelude::*;

use crate::text::chars_of;
use crate::text::push_char;

verus! {

/// How well one letter of a guess fits the answer.
#[derive(Clone, Copy, Debug, PartialEq, Eq, Structural)]
pub enum HitAccuracy {
    InRightPlace,
    InWord,
    NotInWord,
}

/// One letter of a guess with its accuracy.
#[derive(Clone, Copy, Debug, PartialEq, Eq, Structural)]
pub struct GuessLetter {
    pub letter: char,
    pub accuracy: HitAccuracy,
}

/// A scored guess: one letter per position.
#[derive(Debug, PartialEq, Eq)]
pub struct WordGuess {
    pub letters: Vec<GuessLetter>,
}

/// Positions below `n` at which `s` holds `c`.
pub open spec fn count_below(s: Seq<char>, c: char, n: int) -> nat
    decreases n,
{
    if n <= 0 {
        0
    } else {
        count_below(s, c, n - 1) + if s[n - 1] == c { 1nat } else { 0nat }
    }
}

/// How often `c` occurs in `s`: the credit that `c` has in an answer `s`.
pub open spec fn letter_count(s: Seq<char>, c: char) -> nat {
    count_below(s, c, s.len() as int)
}

/// Positions below `n` at which guess `g` and answer `a` both hold `c`.
pub open spec fn exact_below(a: Seq<char>, g: Seq<char>, c: char, n: int) -> nat
    decreases n,
{
    if n <= 0 {
        0
    } else {
        exact_below(a, g, c, n - 1) + if g[n - 1] == c && a[n - 1] == c { 1nat } else { 0nat }
    }
}

/// Positions below `n` at which guess `g` holds `c` and answer `a` does not.
pub open spec fn misplaced_below(a: Seq<char>, g: Seq<char>, c: char, n: int) -> nat
    decreases n,
{
    if n <= 0 {
        0
    } else {
        misplaced_below(a, g, c, n - 1) + if g[n - 1] == c && a[n - 1] != c { 1nat } else { 0nat }
    }
}

/// Accuracy of position `i` of guess `g` against answer `a`. Exact matches
/// claim their credit first, over the whole word; what is left of a letter's
/// credit goes to its other occurrences from left to right.
pub open spec fn accuracy_at(a: Seq<char>, g: Seq<char>, i: int) -> HitAccuracy {
    if g[i] == a[i] {
        HitAccuracy::InRightPlace
    } else if exact_below(a, g, g[i], g.len() as int) + misplaced_below(a, g, g[i], i)
        < letter_count(a, g[i]) {
        HitAccuracy::InWord
    } else {
        HitAccuracy::NotInWord
    }
}

/// The scored letter at position `i` of guess `g` against answer `a`.
pub open spec fn letter_at(a: Seq<char>, g: Seq<char>, i: int) -> GuessLetter {
    GuessLetter { letter: g[i], accuracy: accuracy_at(a, g, i) }
}

/// The scored letters of guess `g` against answer `a`.
pub open spec fn scored(a: Seq<char>, g: Seq<char>) -> Seq<GuessLetter> {
    Seq::new(g.len(), |i: int| letter_at(a, g, i))
}

/// The word that scored letters spell.
pub open spec fn word_of(letters: Seq<GuessLetter>) -> Seq<char> {
    letters.map_values(|l: GuessLetter| l.letter)
}

/// Positions below `n` of `letters` that hold `c` and got credit.
pub open spec fn credited_below(letters: Seq<GuessLetter>, c: char, n: int) -> nat
    decreases n,
{
    if n <= 0 {
        0
    } else {
        credited_below(letters, c, n - 1) + if letters[n - 1].letter == c
            && letters[n - 1].accuracy != HitAccuracy::NotInWord { 1nat } else { 0nat }
    }
}

impl View for WordGuess {
    type V = Seq<GuessLetter>;

    open spec fn view(&self) -> Seq<GuessLetter> {
        self.letters@
    }
}

/// Each occurrence of `c` in the guess is either exact or misplaced, and the
/// exact ones are occurrences in the answer too.
proof fn lemma_split_count(a: Seq<char>, g: Seq<char>, c: char, n: int)
    requires
        0 <= n <= g.len(),
        g.len() == a.len(),
    ensures
        exact_below(a, g, c, n) + misplaced_below(a, g, c, n) == count_below(g, c, n),
        exact_below(a, g, c, n) <= count_below(a, c, n),
        count_below(g, c, n) <= n,
    decreases n,
{
    if n > 0 {
        lemma_split_count(a, g, c, n - 1);
    }
}

/// Number of positions of `word` that hold `c`.
fn count_letter(word: &Vec<char>, c: char) -> (r: usize)
    ensures
        r == letter_count(word@, c),
{
    let mut r: usize = 0;
    let mut i: usize = 0;
    while i < word.len()
        invariant
            i <= word.len(),
            r == count_below(word@, c, i as int),
            r <= i,
        decreases word.len() - i,
    {
        if word[i] == c {
            r = r + 1;
        }
        i = i + 1;
    }
    r
}

/// Number of positions that hold `c` in both `answer` and `guess`, and
/// number of positions below `end` that hold `c` in `guess` only.
fn count_exact_and_misplaced(answer: &Vec<char>, guess: &Vec<char>, c: char, end: usize) -> (r: (
    usize,
    usize,
))
    requires
        answer@.len() == guess@.len(),
        end <= guess@.len(),
    ensures
        r.0 == exact_below(answer@, guess@, c, guess@.len() as int),
        r.1 == misplaced_below(answer@, guess@, c, end as int),
        r.0 + r.1 <= guess.len(),
{
    let mut exact: usize = 0;
    let mut misplaced: usize = 0;
    let mut i: usize = 0;
    while i < guess.len()
        invariant
            i <= guess.len(),
            end <= guess.len(),
            answer@.len() == guess@.len(),
            exact == exact_below(answer@, guess@, c, i as int),
            misplaced == misplaced_below(answer@, guess@, c, if i < end { i as int } else { end as int }),
            exact + misplaced <= i,
        decreases guess.len() - i,
    {
        proof {
            lemma_split_count(answer@, guess@, c, i as int + 1);
            lemma_split_count(answer@, guess@, c, end as int);
        }
        if guess[i] == c && answer[i] == c {
            exact = exact + 1;
        } else if guess[i] == c && i < end {
            misplaced = misplaced + 1;
        }
        i = i + 1;
    }
    (exact, misplaced)
}

/// The scored letter at position `index` of `guess` against `answer`.
fn build_guess_letter_with_accuracy(answer: &Vec<char>, guess: &Vec<char>, index: usize) -> (r:
    GuessLetter)
    requires
        answer@.len() == guess@.len(),
        index < guess@.len(),
    ensures
        r == letter_at(answer@, guess@, index as int),
{
    let letter = guess[index];
    if letter == answer[index] {
        return GuessLetter { letter, accuracy: HitAccuracy::InRightPlace };
    }
    let credit = count_letter(answer, letter);
    let (exact, misplaced) = count_exact_and_misplaced(answer, guess, letter, index);
    let accuracy = if exact + misplaced < credit {
        HitAccuracy::InWord
    } else {
        HitAccuracy::NotInWord
    };
    GuessLetter { letter, accuracy }
}

/// Scores `guess` against `answer`, position by position.
pub fn build_guess(answer: &str, guess: &str) -> (r: WordGuess)
    requires
        answer@.len() == guess@.len(),
    ensures
        r@ == scored(answer@, guess@),
{
    let a = chars_of(answer);
    let g = chars_of(guess);
    let mut letters: Vec<GuessLetter> = Vec::new();
    let mut i: usize = 0;
    while i < g.len()
        invariant
            i <= g.len(),
            a@ == answer@,
            g@ == guess@,
            a@.len() == g@.len(),
            letters@ == scored(answer@, guess@).take(i as int),
        decreases g.len() - i,
    {
        let l = build_guess_letter_with_accuracy(&a, &g, i);
        assert(scored(answer@, guess@)[i as int] == l);
        letters.push(l);
        i = i + 1;
        assert(letters@ =~= scored(answer@, guess@).take(i as int));
    }
    assert(letters@ =~= scored(answer@, guess@).take(g.len() as int));
    assert(letters@ =~= scored(answer@, guess@));
    WordGuess { letters }
}

/// The letters `c` that get credit below `n`: all exact ones, and the
/// misplaced ones while credit remains after the exact ones took theirs.
proof fn lemma_credited(a: Seq<char>, g: Seq<char>, c: char, n: int)
    requires
        0 <= n <= g.len(),
        g.len() == a.len(),
        exact_below(a, g, c, g.len() as int) <= letter_count(a, c),
    ensures
        ({
            let rest = letter_count(a, c) - exact_below(a, g, c, g.len() as int);
            let m = misplaced_below(a, g, c, n) as int;
            credited_below(scored(a, g), c, n) == exact_below(a, g, c, n) + if m < rest {
                m
            } else {
                rest
            }
        }),
    decreases n,
{
    if n > 0 {
        lemma_credited(a, g, c, n - 1);
    }
}

/// Scoring a word against itself puts every letter in its right place.
pub proof fn law_answer_scores_all_right(a: Seq<char>)
    ensures
        forall|i: int|
            0 <= i < a.len() ==> (#[trigger] scored(a, a)[i]).accuracy == HitAccuracy::InRightPlace,
{
}

/// However a guess is made, the letters of it that get credit (in the right
/// place or in the word) never outnumber that letter's occurrences in the
/// answer.
pub proof fn law_credit_bounded_by_answer(a: Seq<char>, g: Seq<char>, c: char)
    requires
        a.len() == g.len(),
    ensures
        credited_below(scored(a, g), c, g.len() as int) <= letter_count(a, c),
{
    lemma_split_count(a, g, c, g.len() as int);
    lemma_credited(a, g, c, g.len() as int);
}

/// A letter that stands where the answer has it is always in the right place,
/// whatever the other letters of the guess are.
pub proof fn law_exact_match_in_right_place(a: Seq<char>, g: Seq<char>, i: int)
    requires
        a.len() == g.len(),
        0 <= i < g.len(),
        g[i] == a[i],
    ensures
        scored(a, g)[i].accuracy == HitAccuracy::InRightPlace,
{
}

/// Scoring depends on the answer and the guess alone: equal inputs give equal
/// scores.
pub proof fn law_scoring_is_pure(a1: Seq<char>, g1: Seq<char>, a2: Seq<char>, g2: Seq<char>)
    requires
        a1 == a2,
        g1 == g2,
    ensures
        scored(a1, g1) == scored(a2, g2),
{
}

impl WordGuess {
    /// The guessed word.
    pub fn word(&self) -> (r: String)
        ensures
            r@ == word_of(self@),
    {
        let mut r = String::new();
        let mut i: usize = 0;
        while i < self.letters.len()
            invariant
                i <= self.letters.len(),
                r@ == word_of(self@).take(i as int),
            decreases self.letters.len() - i,
        {
            push_char(&mut r, self.letters[i].letter);
            i = i + 1;
            assert(r@ =~= word_of(self@).take(i as int));
        }
        assert(r@ =~= word_of(self@));
        r
    }

    /// The scored letters, in order.
    pub fn letters(&self) -> (r: &[GuessLetter])
        ensures
            r@ == self@,
    {
        self.letters.as_slice()
    }
}

} // verus!
