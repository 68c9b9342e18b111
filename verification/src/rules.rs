//! The rules of play, stated on the mathematical view of a session.
//!
//! `Session` is what a game is to its rules: the target, the dictionary, the
//! cursor, the grid and the state of play. Each operation of the engine is a
//! function from sessions to sessions here, and the executable operations
//! are proved to compute exactly these functions. The laws at the end hold
//! of every session and of every sequence of keys.

use crate::cursor::Cursor;
use crate::feedback::{feedback, lemma_target_is_all_exact, Feedback};
use crate::key_actions::Key;
use crate::letters::{ascii_upper, ascii_upper_char, is_ascii_letter};
use crate::wordle::{blank_field, row_complete, row_marks, row_text, with_marks, Field, State};
use crate::{COLS, ROWS};
use vstd::prelude::*;

verus! {

/// The mathematical view of a game in progress.
#[verifier::ext_equal]
pub struct Session {
    /// The letters of the target word.
    pub target: Seq<char>,
    /// The words that are accepted as guesses.
    pub dictionary: Seq<Seq<char>>,
    /// The active cell.
    pub cursor: Cursor,
    /// The cells, row by row.
    pub grid: Seq<Seq<Field>>,
    /// Whether the game is still played, won or lost.
    pub state: State,
}

/// The cursor at the start of a game: selected, on the first cell.
pub open spec fn start_cursor() -> Cursor {
    Cursor { selected: true, cursor_pos: (0, 0), cols: COLS, rows: ROWS }
}

/// The session at the start of a game: every cell blank and unmarked, the
/// cursor on the first cell, the game being played.
pub open spec fn fresh(target: Seq<char>, dictionary: Seq<Seq<char>>) -> Session {
    Session {
        target,
        dictionary,
        cursor: start_cursor(),
        grid: Seq::new(ROWS as nat, |r: int| Seq::new(COLS as nat, |c: int| blank_field())),
        state: State::Playing,
    }
}

impl Session {
    /// The grid has `ROWS` rows of `COLS` cells and the cursor lies in it.
    pub open spec fn wf(self) -> bool {
        &&& self.cursor.rows == ROWS
        &&& self.cursor.cols == COLS
        &&& self.cursor.wf()
        &&& self.grid.len() == ROWS
        &&& forall|r: int| 0 <= r < ROWS ==> (#[trigger] self.grid[r]).len() == COLS
    }

    /// The cells of the row that the cursor is on.
    pub open spec fn current_row(self) -> Seq<Field> {
        self.grid[self.cursor.row()]
    }

    /// The cell that the cursor is on.
    pub open spec fn current_field(self) -> Field {
        self.current_row()[self.cursor.col()]
    }

    /// The guess that the current row spells: its letters in upper case.
    pub open spec fn guess(self) -> Seq<char> {
        ascii_upper(row_text(self.current_row()))
    }

    /// The current row can be submitted: it is complete and the dictionary
    /// holds its guess.
    pub open spec fn accepts_row(self) -> bool {
        row_complete(self.current_row()) && self.dictionary.contains(self.guess())
    }

    /// The session with the current row marked against the target.
    pub open spec fn marked(self) -> Session {
        Session {
            grid: self.grid.update(
                self.cursor.row(),
                with_marks(self.current_row(), feedback(self.guess(), self.target)),
            ),
            ..self
        }
    }

    /// How the game stands once the current row is submitted: won if the
    /// row spells the target, else lost on the last row, else still played.
    pub open spec fn outcome(self) -> State {
        if self.guess() == self.target {
            State::Won
        } else if self.cursor.row() == ROWS - 1 {
            State::Lost
        } else {
            State::Playing
        }
    }

    /// The session after the current row has been submitted.
    ///
    /// Nothing changes once the game is over, or while the row is not
    /// accepted. An accepted row is marked. The game is then won or lost, or
    /// it goes on with the cursor selected on the first cell of the next
    /// row.
    pub open spec fn submitted(self) -> Session {
        if self.state != State::Playing || !self.accepts_row() {
            self
        } else {
            match self.outcome() {
                State::Playing => Session {
                    cursor: Cursor { selected: true, ..self.cursor.down().home() },
                    ..self.marked()
                },
                over => Session { state: over, ..self.marked() },
            }
        }
    }

    /// The session after `letter` has been written into the current cell.
    ///
    /// The cell keeps its mark. A write into the last cell of a row fills
    /// the row, and the cursor is then no longer selected.
    pub open spec fn written(self, letter: char) -> Session {
        Session {
            grid: self.grid.update(
                self.cursor.row(),
                self.current_row().update(
                    self.cursor.col(),
                    Field { input_char: letter, ..self.current_field() },
                ),
            ),
            cursor: if self.cursor.col() == COLS - 1 {
                Cursor { selected: false, ..self.cursor }
            } else {
                self.cursor
            },
            ..self
        }
    }

    /// The session after a backspace: the cursor steps back first if its
    /// cell is selected and blank, then its cell is blanked and selected.
    pub open spec fn erased(self) -> Session {
        let back = if self.cursor.selected && self.current_field().input_char == ' ' {
            Session { cursor: self.cursor.left(), ..self }
        } else {
            self
        };
        Session { cursor: Cursor { selected: true, ..back.cursor }, ..back.written(' ') }
    }

    /// The session after a character has been typed: a letter goes into a
    /// selected cell in upper case and the cursor steps to the right; any
    /// other character, and any character while the cell is not selected,
    /// changes nothing.
    pub open spec fn typed(self, c: char) -> Session {
        if is_ascii_letter(c) && self.cursor.selected {
            let filled = self.written(ascii_upper_char(c));
            Session { cursor: filled.cursor.right(), ..filled }
        } else {
            self
        }
    }

    /// The session after one key. A game that is over ignores every key.
    pub open spec fn after(self, key: Key) -> Session {
        if self.state != State::Playing {
            self
        } else {
            match key {
                Key::Enter => self.submitted(),
                Key::Left => Session { cursor: self.cursor.left(), ..self },
                Key::Right => Session { cursor: self.cursor.right(), ..self },
                Key::Backspace => self.erased(),
                Key::Char(c) => self.typed(c),
            }
        }
    }

    /// The session after the keys of `keys`, one after the other.
    pub open spec fn after_all(self, keys: Seq<Key>) -> Session
        decreases keys.len(),
    {
        if keys.len() == 0 {
            self
        } else {
            self.after_all(keys.drop_last()).after(keys.last())
        }
    }

    /// Number of rows that the keys of `keys` submit without winning: the
    /// times that `Enter` meets a game being played and an accepted row
    /// that does not spell the target.
    pub open spec fn failed_guesses(self, keys: Seq<Key>) -> nat
        decreases keys.len(),
    {
        if keys.len() == 0 {
            0
        } else {
            let before = self.after_all(keys.drop_last());
            self.failed_guesses(keys.drop_last()) + if keys.last() == Key::Enter && before.state
                == State::Playing && before.accepts_row() && before.guess() != before.target {
                1nat
            } else {
                0nat
            }
        }
    }
}

/// The start of a game is a well-formed session.
pub proof fn lemma_fresh_is_wf(target: Seq<char>, dictionary: Seq<Seq<char>>)
    ensures
        fresh(target, dictionary).wf(),
        fresh(target, dictionary).state == State::Playing,
        fresh(target, dictionary).cursor.row() == 0,
{
}

/// Every key leaves a well-formed session well-formed, and leaves the
/// target and the dictionary as they were.
pub proof fn lemma_keys_keep_wf(s: Session, key: Key)
    requires
        s.wf(),
    ensures
        s.after(key).wf(),
        s.after(key).target == s.target,
        s.after(key).dictionary == s.dictionary,
{
}

/// Only a submission changes the row of the cursor or the state of play.
pub proof fn lemma_editing_keeps_row_and_state(s: Session, key: Key)
    requires
        s.wf(),
        key != Key::Enter,
    ensures
        s.after(key).state == s.state,
        s.after(key).cursor.row() == s.cursor.row(),
{
}

/// A row that spells the target wins the game, whichever row it is, and
/// every cell of it is marked `Exact`.
///
/// The row has to be one that can be submitted: the game is being played,
/// and the row is complete and its guess is in the dictionary.
pub proof fn lemma_guessing_the_target_wins(s: Session)
    requires
        s.wf(),
        s.state == State::Playing,
        s.accepts_row(),
        s.guess() == s.target,
    ensures
        s.submitted().state == State::Won,
        forall|c: int|
            0 <= c < COLS ==> (#[trigger] s.submitted().grid[s.cursor.row()][c]).feedback
                == Feedback::Exact,
{
    lemma_target_is_all_exact(s.target);
}

/// Submitting a row with a blank cell changes nothing: neither the state of
/// play nor any mark.
pub proof fn lemma_incomplete_row_is_ignored(s: Session)
    requires
        !row_complete(s.current_row()),
    ensures
        s.submitted() == s,
{
}

/// Submitting a complete row whose guess the dictionary does not hold
/// changes nothing.
pub proof fn lemma_unknown_word_is_ignored(s: Session)
    requires
        row_complete(s.current_row()),
        !s.dictionary.contains(s.guess()),
    ensures
        s.submitted() == s,
{
}

/// Once the game is won or lost, a submission changes nothing, and neither
/// does any other key.
pub proof fn lemma_finished_game_ignores_keys(s: Session, keys: Seq<Key>)
    requires
        s.state != State::Playing,
    ensures
        s.submitted() == s,
        s.after_all(keys) == s,
    decreases keys.len(),
{
    if keys.len() > 0 {
        lemma_finished_game_ignores_keys(s, keys.drop_last());
    }
}

/// The state of play moves one way only: a game that is over stays as it
/// ended, whatever keys follow.
pub proof fn lemma_no_way_back_to_playing(s: Session, keys: Seq<Key>)
    ensures
        s.after_all(keys).state == State::Playing ==> s.state == State::Playing,
    decreases keys.len(),
{
    if s.state != State::Playing {
        lemma_finished_game_ignores_keys(s, keys);
    }
}

/// While a game from its start is being played, the cursor is on the row
/// whose number is the number of failed guesses so far; a game that was won
/// has seen fewer failed guesses than there are rows, and a game that was
/// lost as many.
proof fn lemma_failed_guesses_count_rows(s: Session, keys: Seq<Key>)
    requires
        s.wf(),
        s.state == State::Playing,
        s.cursor.row() == 0,
    ensures
        s.after_all(keys).wf(),
        s.after_all(keys).state == State::Playing ==> s.after_all(keys).cursor.row()
            == s.failed_guesses(keys),
        s.after_all(keys).state == State::Won ==> s.failed_guesses(keys) < ROWS,
        s.after_all(keys).state == State::Lost ==> s.failed_guesses(keys) == ROWS,
    decreases keys.len(),
{
    if keys.len() > 0 {
        let before = s.after_all(keys.drop_last());
        lemma_failed_guesses_count_rows(s, keys.drop_last());
        lemma_keys_keep_wf(before, keys.last());
        if keys.last() != Key::Enter {
            lemma_editing_keeps_row_and_state(before, keys.last());
        }
    }
}

/// A game is lost after as many failed guesses as there are rows: whatever
/// keys are pressed from the start of a game, once `ROWS` accepted rows
/// have been submitted without spelling the target, the game is lost.
pub proof fn lemma_failed_guesses_lose_the_game(s: Session, keys: Seq<Key>)
    requires
        s.wf(),
        s.state == State::Playing,
        s.cursor.row() == 0,
        s.failed_guesses(keys) >= ROWS,
    ensures
        s.after_all(keys).state == State::Lost,
{
    lemma_failed_guesses_count_rows(s, keys);
}

} // verus!
