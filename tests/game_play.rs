use guess_word::dictionary::Dictionary;
use guess_word::game::{Game, GameStatus, GuessResult};
use guess_word::scoring::{build_guess, GuessLetter, HitAccuracy};
use guess_word::{GUESS_LENGTH, GUESS_MAX};

use HitAccuracy::{InRightPlace, InWord, NotInWord};

const WORDS: &str = "ABIDE\nSPEED\nERASE\nCRANE\nNANNY\nROBOT\nTRAIN\nPLUMB\nGHOST\nABBEY";

fn accuracies(answer: &str, guess: &str) -> Vec<HitAccuracy> {
    build_guess(answer, guess).letters().iter().map(|l| l.accuracy).collect()
}

fn game_with(answer: &str) -> Game {
    Game::with_answer(Dictionary::new(WORDS), answer).expect("answer is in the dictionary")
}

#[test]
fn speed_erase_scores_duplicates() {
    assert_eq!(
        accuracies("SPEED", "ERASE"),
        vec![InWord, NotInWord, NotInWord, InWord, InWord]
    );
}

#[test]
fn answer_against_itself_is_all_right() {
    for w in ["ABIDE", "SPEED", "NANNY", "ABBEY", "ROBOT"] {
        assert_eq!(accuracies(w, w), vec![InRightPlace; GUESS_LENGTH]);
    }
}

#[test]
fn exact_match_claims_credit_before_earlier_positions() {
    // The 'N' in place at index 3 takes the only 'N' of the answer, so the
    // earlier 'N' at index 0 gets nothing.
    assert_eq!(
        accuracies("CRANE", "NANNY"),
        vec![NotInWord, InWord, NotInWord, InRightPlace, NotInWord]
    );
}

#[test]
fn excess_letters_get_no_credit() {
    assert_eq!(
        accuracies("ABBEY", "BBBBB"),
        vec![NotInWord, InRightPlace, InRightPlace, NotInWord, NotInWord]
    );
    assert_eq!(
        accuracies("ROBOT", "OOOOO"),
        vec![NotInWord, InRightPlace, NotInWord, InRightPlace, NotInWord]
    );
    assert_eq!(
        accuracies("SPEED", "EEEEE"),
        vec![NotInWord, NotInWord, InRightPlace, InRightPlace, NotInWord]
    );
}

#[test]
fn credit_goes_left_to_right_among_misplaced() {
    assert_eq!(
        accuracies("ABBEY", "EERIE"),
        vec![InWord, NotInWord, NotInWord, NotInWord, NotInWord]
    );
    assert_eq!(
        accuracies("ABIDE", "EERIE"),
        vec![NotInWord, NotInWord, NotInWord, InWord, InRightPlace]
    );
}

#[test]
fn letter_not_in_answer_is_not_in_word() {
    assert_eq!(
        accuracies("PLUMB", "GHOST"),
        vec![NotInWord; GUESS_LENGTH]
    );
}

#[test]
fn scoring_is_repeatable() {
    assert_eq!(build_guess("SPEED", "ERASE"), build_guess("SPEED", "ERASE"));
}

#[test]
fn word_guess_spells_the_guess() {
    let g = build_guess("SPEED", "ERASE");
    assert_eq!(g.word(), "ERASE");
    assert_eq!(g.letters().len(), GUESS_LENGTH);
    assert_eq!(
        g.letters()[0],
        GuessLetter { letter: 'E', accuracy: InWord }
    );
}

#[test]
fn dictionary_keeps_lines_of_the_right_length() {
    let d = Dictionary::new("ABIDE\nTOOLONG\n\nAB\nSPEED\nABIDE\nCRANE");
    assert!(d.contains("ABIDE"));
    assert!(d.contains("SPEED"));
    assert!(d.contains("CRANE"));
    assert!(!d.contains("TOOLONG"));
    assert!(!d.contains("AB"));
    assert!(!d.contains(""));
    assert!(!d.contains("abide"));
    assert!(!d.contains("ABIDE\n"));
}

#[test]
fn dictionary_handles_trailing_newline() {
    let d = Dictionary::new("ABIDE\nSPEED\n");
    assert!(d.contains("SPEED"));
    assert!(!d.contains(""));
}

#[test]
fn random_word_comes_from_the_dictionary() {
    let d = Dictionary::new(WORDS);
    for _ in 0..20 {
        let w = d.get_random_word().expect("dictionary is not empty");
        assert!(d.contains(&w));
    }
}

#[test]
fn empty_dictionary_has_no_random_word() {
    assert_eq!(Dictionary::new("").get_random_word(), None);
    assert_eq!(Dictionary::new("TOOLONG\nAB\n").get_random_word(), None);
    assert!(Game::new(Dictionary::new("")).is_none());
}

#[test]
fn random_game_can_be_won() {
    let mut game = Game::new(Dictionary::new("CRANE")).expect("one word");
    assert_eq!(game.guess("CRANE"), (GameStatus::Won, GuessResult::Valid));
    assert_eq!(game.get_answer(), Some("CRANE".to_string()));
}

#[test]
fn answer_must_be_in_dictionary() {
    assert!(Game::with_answer(Dictionary::new(WORDS), "ZEBRA").is_none());
    assert!(Game::with_answer(Dictionary::new(WORDS), "ABIDE").is_some());
}

#[test]
fn abide_guessed_exactly_wins() {
    let mut game = game_with("ABIDE");
    assert_eq!(game.guess("ABIDE"), (GameStatus::Won, GuessResult::Valid));
    assert_eq!(
        game.guesses()[0].letters().iter().map(|l| l.accuracy).collect::<Vec<_>>(),
        vec![InRightPlace; GUESS_LENGTH]
    );
    assert_eq!(game.status(), GameStatus::Won);
}

#[test]
fn six_misses_lose_and_reveal_answer() {
    let mut game = game_with("ABIDE");
    let misses = ["SPEED", "ERASE", "CRANE", "NANNY", "ROBOT", "TRAIN"];
    assert_eq!(misses.len(), GUESS_MAX);
    for (i, w) in misses.iter().enumerate() {
        assert_eq!(game.get_answer(), None);
        let (status, result) = game.guess(w);
        assert_eq!(result, GuessResult::Valid);
        if i + 1 < GUESS_MAX {
            assert_eq!(status, GameStatus::InProgress);
        } else {
            assert_eq!(status, GameStatus::Lost);
        }
    }
    assert_eq!(game.get_answer(), Some("ABIDE".to_string()));
    assert_eq!(game.guess("PLUMB"), (GameStatus::Lost, GuessResult::GameOver));
    assert_eq!(game.guesses().len(), GUESS_MAX);
}

#[test]
fn win_on_last_guess_is_a_win() {
    let mut game = game_with("ABIDE");
    for w in ["SPEED", "ERASE", "CRANE", "NANNY", "ROBOT"] {
        assert_eq!(game.guess(w).1, GuessResult::Valid);
    }
    assert_eq!(game.guess("ABIDE"), (GameStatus::Won, GuessResult::Valid));
}

#[test]
fn repeated_guess_is_duplicate() {
    let mut game = game_with("ABIDE");
    assert_eq!(game.guess("SPEED"), (GameStatus::InProgress, GuessResult::Valid));
    assert_eq!(
        game.guess("SPEED"),
        (GameStatus::InProgress, GuessResult::DuplicateGuess)
    );
    assert_eq!(game.guesses().len(), 1);
}

#[test]
fn wrong_length_is_refused_without_an_attempt() {
    let mut game = game_with("ABIDE");
    assert_eq!(
        game.guess("ABID"),
        (GameStatus::InProgress, GuessResult::IncorrectLength)
    );
    assert_eq!(
        game.guess("ABIDES"),
        (GameStatus::InProgress, GuessResult::IncorrectLength)
    );
    assert_eq!(game.guess(""), (GameStatus::InProgress, GuessResult::IncorrectLength));
    assert_eq!(game.guesses().len(), 0);
}

#[test]
fn unknown_word_is_refused() {
    let mut game = game_with("ABIDE");
    assert_eq!(
        game.guess("ZEBRA"),
        (GameStatus::InProgress, GuessResult::NotInDictionary)
    );
    assert!(!game.in_dictionary("ZEBRA"));
    assert!(game.in_dictionary("ROBOT"));
    assert_eq!(game.guesses().len(), 0);
}

#[test]
fn won_game_accepts_no_more_guesses() {
    let mut game = game_with("ABIDE");
    game.guess("ABIDE");
    assert_eq!(game.guess("SPEED"), (GameStatus::Won, GuessResult::GameOver));
    assert_eq!(game.guess("ABIDE"), (GameStatus::Won, GuessResult::DuplicateGuess));
    assert_eq!(game.guesses().len(), 1);
}
