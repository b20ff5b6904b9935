//! A word-guessing game: a hidden answer is drawn from a dictionary, guesses
//! are scored letter by letter, and the game is won or lost.
use vstd::prelude::*;

pub mod dictionary;
pub mod game;
pub mod scoring;
pub mod text;

verus! {

/// Number of letters in every answer and every accepted guess.
pub const GUESS_LENGTH: usize = 5;

/// Number of guesses a game allows.
pub const GUESS_MAX: usize = 6;

} // verus!
