//! One game: the answer, the dictionary, and the guesses made so far.
use vstd::prelude::*;

use crate::dictionary::Dictionary;
use crate::scoring::build_guess;
use crate::scoring::scored;
use crate::scoring::word_of;
use crate::scoring::GuessLetter;
use crate::scoring::WordGuess;
use crate::GUESS_LENGTH;
use crate::GUESS_MAX;

verus! {

/// Where a game stands.
#[derive(Clone, Copy, Debug, PartialEq, Eq, Structural)]
pub enum GameStatus {
    InProgress,
    Won,
    Lost,
}

/// What became of a submitted guess.
#[derive(Clone, Copy, Debug, PartialEq, Eq, Structural)]
pub enum GuessResult {
    /// The guess was scored and recorded.
    Valid,
    /// The same word was guessed before in this game.
    DuplicateGuess,
    /// The guess does not have `GUESS_LENGTH` letters.
    IncorrectLength,
    /// The guess is not in the dictionary.
    NotInDictionary,
    /// The game was already won or lost.
    GameOver,
}

/// Status of a game with answer `answer` after the guesses `words`.
pub open spec fn status_of(words: Seq<Seq<char>>, answer: Seq<char>) -> GameStatus {
    if words.len() > 0 && words.last() == answer {
        GameStatus::Won
    } else if words.len() >= GUESS_MAX {
        GameStatus::Lost
    } else {
        GameStatus::InProgress
    }
}

/// A game in progress or over.
pub struct Game {
    guesses: Vec<WordGuess>,
    answer: String,
    dictionary: Dictionary,
}

impl Game {
    /// The hidden answer.
    pub closed spec fn answer_word(&self) -> Seq<char> {
        self.answer@
    }

    /// The scored guesses, oldest first.
    pub closed spec fn history(&self) -> Seq<Seq<GuessLetter>> {
        self.guesses@.map_values(|g: WordGuess| g@)
    }

    /// The dictionary that guesses are checked against.
    pub closed spec fn dict(&self) -> Dictionary {
        self.dictionary
    }

    /// The guessed words, oldest first.
    pub open spec fn words(&self) -> Seq<Seq<char>> {
        self.history().map_values(|l: Seq<GuessLetter>| word_of(l))
    }

    /// Where the game stands.
    pub open spec fn status_spec(&self) -> GameStatus {
        status_of(self.words(), self.answer_word())
    }

    /// What submitting `w` leads to. The checks come in this order: length,
    /// repetition, dictionary, and last whether the game is still going.
    pub open spec fn outcome(&self, w: Seq<char>) -> GuessResult {
        if w.len() != GUESS_LENGTH {
            GuessResult::IncorrectLength
        } else if self.words().contains(w) {
            GuessResult::DuplicateGuess
        } else if !self.dict().has(w) {
            GuessResult::NotInDictionary
        } else if self.status_spec() != GameStatus::InProgress {
            GuessResult::GameOver
        } else {
            GuessResult::Valid
        }
    }

    /// The answer is a word of a well-formed dictionary, and every recorded
    /// guess is the score of its word against the answer.
    pub closed spec fn wf(&self) -> bool {
        &&& self.dictionary.wf()
        &&& self.dictionary.has(self.answer@)
        &&& self.answer@.len() == GUESS_LENGTH
        &&& self.guesses@.len() <= GUESS_MAX
        &&& forall|k: int|
            0 <= k < self.guesses@.len() ==> (#[trigger] self.guesses@[k])@ == scored(
                self.answer@,
                word_of(self.guesses@[k]@),
            )
    }

    /// A new game whose answer is `answer`; `None` when `answer` is not in
    /// the dictionary.
    pub fn with_answer(dictionary: Dictionary, answer: &str) -> (r: Option<Game>)
        requires
            dictionary.wf(),
        ensures
            r is Some <==> dictionary.has(answer@),
            r matches Some(g) ==> {
                &&& g.wf()
                &&& g.answer_word() == answer@
                &&& g.dict() == dictionary
                &&& g.history().len() == 0
            },
    {
        if !dictionary.contains(answer) {
            return None;
        }
        proof {
            let k = choose|k: int|
                0 <= k < dictionary.entries().len() && dictionary.entries()[k]@ == answer@;
            assert(dictionary.entries()[k]@.len() == GUESS_LENGTH);
        }
        let g = Game { guesses: Vec::new(), answer: answer.to_owned(), dictionary };
        assert(g.history() =~= Seq::empty());
        Some(g)
    }

    /// A new game whose answer is drawn at random from the dictionary; `None`
    /// when the dictionary is empty.
    pub fn new(dictionary: Dictionary) -> (r: Option<Game>)
        requires
            dictionary.wf(),
        ensures
            r is None <==> dictionary.entries().len() == 0,
            r matches Some(g) ==> {
                &&& g.wf()
                &&& dictionary.has(g.answer_word())
                &&& g.dict() == dictionary
                &&& g.history().len() == 0
            },
    {
        match dictionary.get_random_word() {
            Some(answer) => Game::with_answer(dictionary, answer.as_str()),
            None => None,
        }
    }

    /// The answer, once the game is over; `None` while it is in progress.
    pub fn get_answer(&self) -> (r: Option<String>)
        requires
            self.wf(),
        ensures
            r is Some <==> self.status_spec() != GameStatus::InProgress,
            r matches Some(a) ==> a@ == self.answer_word(),
    {
        if self.status() == GameStatus::InProgress {
            None
        } else {
            Some(self.answer.clone())
        }
    }

    /// Whether `word` is in the game's dictionary.
    pub fn in_dictionary(&self, word: &str) -> (r: bool)
        ensures
            r == self.dict().has(word@),
    {
        self.dictionary.contains(word)
    }

    /// The scored guesses, oldest first.
    pub fn guesses(&self) -> (r: &[WordGuess])
        ensures
            r@.map_values(|g: WordGuess| g@) == self.history(),
    {
        self.guesses.as_slice()
    }

    /// Where the game stands.
    pub fn status(&self) -> (r: GameStatus)
        requires
            self.wf(),
        ensures
            r == self.status_spec(),
    {
        let n = self.guesses.len();
        proof {
            assert(self.words().len() == n);
        }
        if n > 0 {
            let last = self.guesses[n - 1].word();
            assert(self.words().last() == last@);
            if last == self.answer {
                return GameStatus::Won;
            }
        }
        if n >= GUESS_MAX {
            GameStatus::Lost
        } else {
            GameStatus::InProgress
        }
    }

    /// Whether `word` was guessed before in this game.
    fn guessed_before(&self, word: &String) -> (r: bool)
        ensures
            r == self.words().contains(word@),
    {
        let mut k: usize = 0;
        while k < self.guesses.len()
            invariant
                k <= self.guesses@.len(),
                self.words().len() == self.guesses@.len(),
                forall|j: int| 0 <= j < k ==> self.words()[j] != word@,
            decreases self.guesses.len() - k,
        {
            let w = self.guesses[k].word();
            assert(self.words()[k as int] == w@);
            if w == *word {
                assert(self.words()[k as int] == word@);
                return true;
            }
            k = k + 1;
        }
        false
    }

    /// Submits a guess. A valid guess is scored against the answer and
    /// recorded; any other is refused and leaves the game as it was. Returns
    /// where the game then stands, and what became of the guess.
    pub fn guess(&mut self, guess_input: &str) -> (r: (GameStatus, GuessResult))
        requires
            old(self).wf(),
        ensures
            final(self).wf(),
            final(self).answer_word() == old(self).answer_word(),
            final(self).dict() == old(self).dict(),
            r.1 == old(self).outcome(guess_input@),
            r.1 == GuessResult::Valid ==> final(self).history() == old(self).history().push(
                scored(old(self).answer_word(), guess_input@),
            ),
            r.1 == GuessResult::Valid ==> final(self).words() == old(self).words().push(
                guess_input@,
            ),
            r.1 != GuessResult::Valid ==> final(self).history() == old(self).history(),
            r.0 == final(self).status_spec(),
    {
        let result = if guess_input.unicode_len() != GUESS_LENGTH {
            GuessResult::IncorrectLength
        } else if self.guessed_before(&guess_input.to_owned()) {
            GuessResult::DuplicateGuess
        } else if !self.dictionary.contains(guess_input) {
            GuessResult::NotInDictionary
        } else if self.status() != GameStatus::InProgress {
            GuessResult::GameOver
        } else {
            GuessResult::Valid
        };
        if result == GuessResult::Valid {
            let scored_guess = build_guess(self.answer.as_str(), guess_input);
            proof {
                lemma_word_of_scored(self.answer@, guess_input@);
            }
            self.guesses.push(scored_guess);
            assert(self.history() =~= old(self).history().push(
                scored(old(self).answer_word(), guess_input@),
            ));
            assert(self.words() =~= old(self).words().push(guess_input@));
        }
        (self.status(), result)
    }
}

/// The scored letters of a guess spell the guess.
pub proof fn lemma_word_of_scored(a: Seq<char>, g: Seq<char>)
    ensures
        word_of(scored(a, g)) == g,
{
    assert(word_of(scored(a, g)) =~= g);
}

/// A word that was accepted once is refused as a repetition when it is
/// submitted again: `after` is what accepting `w` makes of `before`.
pub proof fn law_repeat_guess_is_duplicate(before: Game, after: Game, w: Seq<char>)
    requires
        before.outcome(w) == GuessResult::Valid,
        after.history() == before.history().push(scored(before.answer_word(), w)),
    ensures
        after.outcome(w) == GuessResult::DuplicateGuess,
{
    lemma_word_of_scored(before.answer_word(), w);
    assert(after.words() =~= before.words().push(w));
    assert(after.words()[after.words().len() - 1] == w);
}

/// A guess of the wrong length is refused as such, so `guess` records
/// nothing and the number of attempts stays where it was.
pub proof fn law_wrong_length_rejected(g: Game, w: Seq<char>)
    requires
        w.len() != GUESS_LENGTH,
    ensures
        g.outcome(w) == GuessResult::IncorrectLength,
{
}

/// Once a game is won or lost, no guess is accepted any more.
pub proof fn law_finished_game_accepts_nothing(g: Game, w: Seq<char>)
    requires
        g.status_spec() != GameStatus::InProgress,
    ensures
        g.outcome(w) != GuessResult::Valid,
{
}

} // verus!
