//! The engine of a grid-based word-guessing game.
//!
//! A player fills rows of letter cells. A completed row is looked up in a
//! dictionary and then compared with a secret target word, which marks each
//! letter as exact, present elsewhere, or absent. The game ends when a row
//! spells the target or when the last row has been used.
//!
//! Every function here is verified: it cannot panic or overflow, and its
//! contract states what it returns and how it changes the session.

pub mod cursor;
pub mod dictionary;
pub mod feedback;
pub mod key_actions;
pub mod letters;
pub mod rules;
pub mod word;
pub mod wordle;

use vstd::prelude::*;

verus! {

/// Number of rows in the grid: the number of guesses a player has.
pub const ROWS: usize = 6;

/// Number of columns in the grid: the length of every word.
pub const COLS: usize = 5;

} // verus!
