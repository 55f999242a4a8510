//! A terminal word-guessing game: guesses are classified letter by letter
//! against a hidden solution and drawn on a fixed region of the terminal.

pub mod display;
pub mod guess;
pub mod input;
pub mod words;

pub use guess::process_guess;

use vstd::prelude::*;

verus! {

/// How a letter of a guess compares with the solution.
#[derive(Debug, Clone, Copy, PartialEq, Eq, Structural)]
pub enum LetterState {
    /// The letter occurs in the solution, but not at this position.
    Exists,
    /// A blank cell: no guess has been made in this row yet.
    NotExists,
    /// The letter stands at this position in the solution.
    Correct,
    /// The letter does not occur (any more) in the solution.
    Incorrect,
}

/// One cell of the board: a glyph and its classification.
#[derive(Debug, Clone, Copy, PartialEq, Eq, Structural)]
pub struct Letter {
    pub value: char,
    pub status: LetterState,
}

impl Letter {
    pub fn new(value: char, status: LetterState) -> (r: Letter)
        ensures
            r.value == value,
            r.status == status,
    {
        Letter { value: value, status: status }
    }

    pub fn value(&self) -> (r: char)
        ensures
            r == self.value,
    {
        self.value
    }

    pub fn status(&self) -> (r: &LetterState)
        ensures
            *r == self.status,
    {
        &self.status
    }
}

} // verus!
