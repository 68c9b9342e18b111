//! What the keys do to a session.

use crate::dictionary::contains_word;
use crate::wordle::{fields_to_string, is_length_cols, mark_row, state_after, State, Wordle};
use vstd::prelude::*;

verus! {

/// A key pressed by the player.
#[derive(Debug, Clone, Copy, PartialEq, Eq, Structural)]
pub enum Key {
    /// Submits the current row.
    Enter,
    /// Steps one cell to the left.
    Left,
    /// Steps one cell to the right.
    Right,
    /// Erases a letter.
    Backspace,
    /// Types a character.
    Char(char),
}

/// Submits the current row.
///
/// Nothing changes once the game is over, while the row has a blank cell,
/// or if the dictionary does not hold the word that the row spells.
/// Otherwise the row is marked against the target. If it spells the target
/// the game is won; else, on the last row, it is lost; else it goes on with
/// the cursor selected on the first cell of the next row.
///
/// The word is read from the row once: the marks and the decision whether
/// the game is won come from the same text.
pub fn enter(wordle: &mut Wordle)
    requires
        old(wordle).wf(),
    ensures
        final(wordle).wf(),
        final(wordle)@ == old(wordle)@.submitted(),
{
    match wordle.game_state {
        State::Playing => {},
        _ => {
            return ;
        },
    }
    let row = wordle.cursor.cursor_pos.0;
    if !is_length_cols(&wordle.fields[row]) {
        return ;
    }
    let word = fields_to_string(&wordle.fields[row]).to_ascii_uppercase();
    if !contains_word(wordle.words.as_slice(), &word) {
        return ;
    }
    mark_row(&wordle.selected_word, word.as_str(), &mut wordle.fields[row]);
    wordle.game_state = state_after(&wordle.selected_word, &word, row);
    match wordle.game_state {
        State::Playing => {
            wordle.cursor.move_down();
            wordle.cursor.col_reset();
            wordle.cursor.selected = true;
        },
        _ => {},
    }
    assert(wordle@.grid =~~= old(wordle)@.submitted().grid);
}

} // verus!
