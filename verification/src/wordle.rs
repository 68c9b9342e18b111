//! The session of a game: the grid of cells, the dictionary, the target
//! word, the cursor and the state of play.

use crate::cursor::Cursor;
use crate::dictionary::{contains_word, words_view};
use crate::feedback::{
    after_contained, after_exact, contained_mark, exact_count, exact_marks, exact_upto, feedback,
    lemma_exact_upto_grows, lemma_exact_within_target, lemma_two_passes_give_feedback, taken,
    Feedback,
};
use crate::key_actions::{enter, Key};
use crate::letters::{ascii_upper, available};
use crate::rules::{fresh, Session};
use crate::word::Word;
use crate::{COLS, ROWS};
use std::collections::HashMap;
use vstd::prelude::*;
use vstd::std_specs::hash::group_hash_axioms;
use vstd::std_specs::iter::IteratorSpec;

verus! {

/// How a game stands.
#[derive(Debug, Clone, Copy, PartialEq, Eq, Structural)]
pub enum State {
    /// The target was guessed.
    Won,
    /// The last row was used without guessing the target.
    Lost,
    /// The game goes on.
    Playing,
}

impl Default for State {
    /// A game starts as `Playing`.
    fn default() -> (state: Self)
        ensures
            state == State::Playing,
    {
        Self::Playing
    }
}

/// One cell of the grid: the letter typed into it, or a blank, and its mark.
#[derive(Debug, Clone, Copy, PartialEq, Eq, Structural)]
pub struct Field {
    pub input_char: char,
    pub feedback: Feedback,
}

impl Default for Field {
    /// A blank cell without a mark.
    fn default() -> (cell: Self)
        ensures
            cell == blank_field(),
    {
        Self { input_char: ' ', feedback: Feedback::Unmarked }
    }
}

/// A blank cell without a mark.
pub open spec fn blank_field() -> Field {
    Field { input_char: ' ', feedback: Feedback::Unmarked }
}

/// The letters of a row of cells, blanks included, in column order.
pub open spec fn row_text(cells: Seq<Field>) -> Seq<char> {
    Seq::new(cells.len(), |i: int| cells[i].input_char)
}

/// Every cell of the row holds a letter: none is blank.
pub open spec fn row_complete(cells: Seq<Field>) -> bool {
    forall|i: int| 0 <= i < cells.len() ==> (#[trigger] cells[i]).input_char != ' '
}

/// The row with the marks replaced by `marks` and the letters kept.
pub open spec fn with_marks(cells: Seq<Field>, marks: Seq<Feedback>) -> Seq<Field> {
    Seq::new(cells.len(), |i: int| Field { input_char: cells[i].input_char, feedback: marks[i] })
}

/// The marks of a row of cells, in column order.
pub open spec fn row_marks(cells: Seq<Field>) -> Seq<Feedback> {
    Seq::new(cells.len(), |i: int| cells[i].feedback)
}

/// The marks that the second pass gives a row: see `contained_mark`.
pub open spec fn contained_marks(
    guess: Seq<char>,
    marks: Seq<Feedback>,
    counts: Map<u32, usize>,
) -> Seq<Feedback> {
    Seq::new(guess.len(), |i: int| contained_mark(guess, marks, counts, i))
}

/// A game: the target word, the dictionary, the cursor, the grid of cells
/// and the state of play.
#[derive(Debug, Default)]
pub struct Wordle {
    pub selected_word: Word,
    pub words: Vec<String>,
    pub cursor: Cursor,
    pub fields: [[Field; COLS]; ROWS],
    pub game_state: State,
}

impl View for Wordle {
    type V = Session;

    /// The session that the rules of play speak of.
    open spec fn view(&self) -> Session {
        Session {
            target: self.selected_word@,
            dictionary: words_view(self.words@),
            cursor: self.cursor,
            grid: Seq::new(ROWS as nat, |r: int| self.fields[r]@),
            state: self.game_state,
        }
    }
}

impl Wordle {
    /// The cursor lies in the grid and knows its size, and the letter
    /// counts of the target are those of its word.
    pub open spec fn wf(&self) -> bool {
        &&& self@.wf()
        &&& self.selected_word.wf()
    }

    /// A new game on the dictionary `words`, with a target drawn from it at
    /// random.
    pub fn new(words: Vec<String>) -> (game: Wordle)
        requires
            words@.len() > 0,
        ensures
            game.wf(),
            exists|i: int|
                0 <= i < words@.len() && game@ == fresh(
                    ascii_upper(#[trigger] words@[i]@),
                    words_view(words@),
                ),
    {
        let selected_word = Word::random_from_list(words.as_slice());
        Wordle::start(selected_word, words)
    }

    /// A new game on the dictionary `words` with the upper-case form of
    /// `target` as its target.
    pub fn with_target(words: Vec<String>, target: &str) -> (game: Wordle)
        ensures
            game.wf(),
            game@ == fresh(ascii_upper(target@), words_view(words@)),
    {
        Wordle::start(Word::new(target), words)
    }

    /// A game at its start.
    fn start(selected_word: Word, words: Vec<String>) -> (game: Wordle)
        requires
            selected_word.wf(),
        ensures
            game.wf(),
            game@ == fresh(selected_word@, words_view(words@)),
    {
        let game = Wordle {
            selected_word,
            words,
            cursor: Cursor { selected: true, cursor_pos: (0, 0), rows: ROWS, cols: COLS },
            fields: [[Field::default(); COLS]; ROWS],
            game_state: State::Playing,
        };
        assert(game@.grid =~~= fresh(game@.target, game@.dictionary).grid);
        game
    }

    /// Writes `letter` into the cell that the cursor is on.
    ///
    /// A write into the last cell of a row fills the row: the cursor is
    /// then no longer selected.
    pub fn update_field(&mut self, letter: char)
        requires
            old(self).wf(),
        ensures
            final(self).wf(),
            final(self)@ == old(self)@.written(letter),
    {
        self.fields[self.cursor.cursor_pos.0][self.cursor.cursor_pos.1].input_char = letter;

        if self.cursor.cursor_pos.1 == COLS - 1 {
            self.cursor.selected = false;
        }
        assert(self@.grid =~~= old(self)@.written(letter).grid);
    }

    /// The cell that the cursor is on.
    pub fn field(&self) -> (cell: Field)
        requires
            self.wf(),
        ensures
            cell == self@.current_field(),
    {
        self.fields[self.cursor.cursor_pos.0][self.cursor.cursor_pos.1]
    }

    /// Whether the current row can be submitted: it is complete and the
    /// dictionary holds the word that it spells in upper case.
    pub fn word_in_list(&self) -> (accepted: bool)
        requires
            self.wf(),
        ensures
            accepted == self@.accepts_row(),
    {
        let word = &self.fields[self.cursor.cursor_pos.0];
        if !is_length_cols(word) {
            return false;
        }
        let text = fields_to_string(word).to_ascii_uppercase();
        contains_word(self.words.as_slice(), &text)
    }

    /// The cells of the row that the cursor is on, to be changed in place.
    pub fn field_in_current_row(&mut self) -> (cells: &mut [Field])
        requires
            old(self).wf(),
        ensures
            cells@ == old(self)@.current_row(),
            final(self).wf(),
            final(self)@ =~~= (Session {
                grid: old(self)@.grid.update(old(self).cursor.row(), final(cells)@),
                ..old(self)@
            }),
            final(self).selected_word == old(self).selected_word,
    {
        &mut self.fields[self.cursor.cursor_pos.0]
    }

    /// Marks the current row against the target.
    pub fn mark_chars(&mut self)
        requires
            old(self).wf(),
        ensures
            final(self).wf(),
            final(self)@ == old(self)@.marked(),
    {
        let row = self.cursor.cursor_pos.0;
        let word = fields_to_string(&self.fields[row]).to_ascii_uppercase();
        mark_row(&self.selected_word, word.as_str(), &mut self.fields[row]);
        assert(self@.grid =~~= old(self)@.marked().grid);
    }

    /// How the game stands once the current row is submitted: won if the
    /// row spells the target, else lost on the last row, else still played.
    pub fn check_win(&self) -> (state: State)
        requires
            self.wf(),
        ensures
            state == self@.outcome(),
    {
        let row = self.cursor.cursor_pos.0;
        let word = fields_to_string(&self.fields[row]).to_ascii_uppercase();
        state_after(&self.selected_word, &word, row)
    }

    /// Applies one key to the game. A game that is over ignores every key.
    pub fn game_logic(&mut self, key: Key)
        requires
            old(self).wf(),
        ensures
            final(self).wf(),
            final(self)@ == old(self)@.after(key),
    {
        match self.game_state {
            State::Playing => {},
            _ => {
                return ;
            },
        }
        match key {
            Key::Enter => {
                enter(self);
            },
            Key::Left => {
                self.cursor.move_left();
            },
            Key::Right => {
                self.cursor.move_right();
            },
            Key::Backspace => {
                if self.cursor.selected && self.field().input_char == ' ' {
                    self.cursor.move_left();
                }
                self.update_field(' ');
                self.cursor.selected = true;
            },
            Key::Char(pressed_char) => {
                if ((pressed_char >= 'a' && pressed_char <= 'z') || (pressed_char >= 'A'
                    && pressed_char <= 'Z')) && self.cursor.selected {
                    self.update_field(pressed_char.to_ascii_uppercase());
                    self.cursor.move_right();
                }
            },
        }
    }
}

/// How the game stands once the guess `word` has been made on the row
/// `row`: won if the guess is the target, else lost on the last row, else
/// still played.
pub fn state_after(selected_word: &Word, word: &String, row: usize) -> (state: State)
    ensures
        state == if word@ == selected_word@ {
            State::Won
        } else if row == ROWS - 1 {
            State::Lost
        } else {
            State::Playing
        },
{
    if selected_word.word == *word {
        State::Won
    } else if row == ROWS - 1 {
        State::Lost
    } else {
        State::Playing
    }
}

/// Marks the cells of a row that spells the guess `word` against the target
/// `selected_word`: the exact matches first, then the letters present
/// elsewhere.
pub fn mark_row(selected_word: &Word, word: &str, word_list: &mut [Field])
    requires
        selected_word.wf(),
        old(word_list)@.len() == word@.len(),
    ensures
        final(word_list)@ == with_marks(old(word_list)@, feedback(word@, selected_word@)),
{
    let ghost cells = word_list@;
    let ghost guess = word@;
    let ghost target = selected_word@;
    let mut char_map = selected_word.chars.clone();
    let ghost counts = char_map@;
    proof {
        assert forall|k: u32|
            exact_count(guess, target, k) <= #[trigger] available(counts, k) by {
            lemma_exact_within_target(guess, target, k);
        }
    }
    mark_correct_pos_chars(selected_word, word, word_list, &mut char_map);
    let ghost first = word_list@;
    mark_contained_chars(word, word_list, &mut char_map);
    proof {
        assert(row_marks(first) =~= exact_marks(guess, target));
        assert forall|i: int| 0 <= i < guess.len() implies contained_marks(
            guess,
            exact_marks(guess, target),
            after_exact(counts, guess, target),
        )[i] == feedback(guess, target)[i] by {
            lemma_two_passes_give_feedback(counts, guess, target, i);
        }
        assert(word_list@ =~= with_marks(cells, feedback(guess, target)));
    }
}

/// The letters of a row as a string, blanks included, in column order.
pub fn fields_to_string(word: &[Field]) -> (text: String)
    ensures
        text@ == row_text(word@),
{
    let mut string_word = String::new();
    let mut idx: usize = 0;
    while idx < word.len()
        invariant
            idx <= word@.len(),
            string_word@ == row_text(word@).take(idx as int),
        decreases word@.len() - idx,
    {
        string_word.push(word[idx].input_char);
        idx += 1;
    }
    string_word
}

/// Whether the row is complete: no cell of it is blank.
pub fn is_length_cols(word: &[Field]) -> (complete: bool)
    ensures
        complete == row_complete(word@),
{
    let mut idx: usize = 0;
    while idx < word.len()
        invariant
            idx <= word@.len(),
            forall|i: int| 0 <= i < idx ==> (#[trigger] word@[i]).input_char != ' ',
        decreases word@.len() - idx,
    {
        if word[idx].input_char == ' ' {
            return false;
        }
        idx += 1;
    }
    true
}

/// First pass of marking a row: finds the exact matches.
///
/// `word` is the guess that the cells of `word_list` spell and
/// `selected_word` the target. Each cell is marked `Exact` where the guess
/// and the target hold the same letter at its position, and `Absent`
/// elsewhere. `char_map` tells how many occurrences of each letter are still
/// to be accounted for: each exact match takes one of its letter. It must
/// offer as many of each letter as the guess has exact matches of it; the
/// target's own letter counts do.
pub fn mark_correct_pos_chars(
    selected_word: &Word,
    word: &str,
    word_list: &mut [Field],
    char_map: &mut HashMap<u32, usize>,
)
    requires
        old(word_list)@.len() == word@.len(),
        forall|k: u32|
            exact_count(word@, selected_word@, k) <= #[trigger] available(old(char_map)@, k),
    ensures
        final(word_list)@ == with_marks(old(word_list)@, exact_marks(word@, selected_word@)),
        final(char_map)@ == after_exact(old(char_map)@, word@, selected_word@),
{
    broadcast use group_hash_axioms;

    let ghost guess = word@;
    let ghost target = selected_word@;
    let ghost cells = word_list@;
    let ghost counts = char_map@;
    let len = word_list.len();
    let mut guess_chars = word.chars();
    let mut target_chars = selected_word.word.as_str().chars();
    let mut idx: usize = 0;
    loop
        invariant_except_break
            guess_chars.remaining() == guess.skip(idx as int),
        invariant
            len == guess.len(),
            idx <= len,
            target_chars.remaining() == (if idx <= target.len() {
                target.skip(idx as int)
            } else {
                Seq::<char>::empty()
            }),
            word_list@.len() == len,
            cells.len() == len,
            forall|j: int|
                0 <= j < idx ==> #[trigger] word_list@[j] == (Field {
                    input_char: cells[j].input_char,
                    feedback: exact_marks(guess, target)[j],
                }),
            forall|j: int| idx <= j < len ==> #[trigger] word_list@[j] == cells[j],
            forall|k: u32| char_map@.contains_key(k) == counts.contains_key(k),
            forall|k: u32|
                #[trigger] char_map@.contains_key(k) ==> char_map@[k] == counts[k] - exact_upto(
                    guess,
                    target,
                    idx as int,
                    k,
                ),
            forall|k: u32| exact_count(guess, target, k) <= #[trigger] available(counts, k),
        ensures
            idx == len,
        decreases len - idx,
    {
        match guess_chars.next() {
            None => {
                break ;
            },
            Some(lhs) => {
                let exact = match target_chars.next() {
                    Some(rhs) => lhs == rhs,
                    None => false,
                };
                if exact {
                    let code = lhs as u32;
                    proof {
                        lemma_exact_upto_grows(guess, target, idx + 1, len as int, code);
                        assert(exact_count(guess, target, code) <= available(counts, code));
                    }
                    word_list[idx].feedback = Feedback::Exact;
                    if let Some(left) = char_map.get(&code) {
                        let left: usize = *left;
                        char_map.insert(code, left - 1);
                    }
                } else {
                    word_list[idx].feedback = Feedback::Absent;
                }
                idx += 1;
            },
        }
    }
    assert(word_list@ =~= with_marks(cells, exact_marks(guess, target)));
    assert(char_map@ =~= after_exact(counts, guess, target));
}

/// Second pass of marking a row: finds the letters present elsewhere.
///
/// `word` is the guess that the cells of `word_list` spell, and `char_map`
/// what the first pass left of each letter. From left to right, each cell
/// that is not `Exact` is marked `Present` and takes one occurrence of its
/// letter from `char_map` if there is one left, and is marked `Absent` if
/// there is none.
pub fn mark_contained_chars(word: &str, word_list: &mut [Field], char_map: &mut HashMap<u32, usize>)
    requires
        old(word_list)@.len() == word@.len(),
    ensures
        final(word_list)@ == with_marks(
            old(word_list)@,
            contained_marks(word@, row_marks(old(word_list)@), old(char_map)@),
        ),
        final(char_map)@ == after_contained(old(char_map)@, word@, row_marks(old(word_list)@)),
{
    broadcast use group_hash_axioms;

    let ghost guess = word@;
    let ghost cells = word_list@;
    let ghost marks = row_marks(word_list@);
    let ghost counts = char_map@;
    let len = word_list.len();
    let mut guess_chars = word.chars();
    let mut idx: usize = 0;
    loop
        invariant_except_break
            guess_chars.remaining() == guess.skip(idx as int),
        invariant
            len == guess.len(),
            idx <= len,
            word_list@.len() == len,
            cells.len() == len,
            marks == row_marks(cells),
            forall|j: int|
                0 <= j < idx ==> #[trigger] word_list@[j] == (Field {
                    input_char: cells[j].input_char,
                    feedback: contained_mark(guess, marks, counts, j),
                }),
            forall|j: int| idx <= j < len ==> #[trigger] word_list@[j] == cells[j],
            forall|k: u32| char_map@.contains_key(k) == counts.contains_key(k),
            forall|k: u32|
                #[trigger] char_map@.contains_key(k) ==> char_map@[k] == counts[k] - taken(
                    guess,
                    marks,
                    idx as int,
                    k,
                    counts[k] as nat,
                ),
        ensures
            idx == len,
        decreases len - idx,
    {
        match guess_chars.next() {
            None => {
                break ;
            },
            Some(lhs) => {
                let exact = match word_list[idx].feedback {
                    Feedback::Exact => true,
                    _ => false,
                };
                if !exact {
                    let code = lhs as u32;
                    let left: usize = match char_map.get(&code) {
                        Some(left) => *left,
                        None => 0,
                    };
                    if left > 0 {
                        word_list[idx].feedback = Feedback::Present;
                        char_map.insert(code, left - 1);
                    } else {
                        word_list[idx].feedback = Feedback::Absent;
                    }
                }
                idx += 1;
            },
        }
    }
    assert(word_list@ =~= with_marks(cells, contained_marks(guess, marks, counts)));
    assert(char_map@ =~= after_contained(counts, guess, marks));
}

} // verus!
