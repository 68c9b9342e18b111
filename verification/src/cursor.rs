//! The cursor: the one active cell of the grid, and whether it takes input.

use vstd::prelude::*;

verus! {

/// The active cell of a grid of `rows` by `cols` cells.
///
/// `cursor_pos` is `(row, col)`, both counted from zero. `selected` says
/// whether the active cell accepts a letter. It is `false` only while the
/// cursor rests on the last cell of a row that has just been filled: the row
/// is then full, and stepping back first selects that cell again.
#[derive(Debug, Default)]
pub struct Cursor {
    pub selected: bool,
    pub cursor_pos: (usize, usize),
    pub cols: usize,
    pub rows: usize,
}

impl Cursor {
    /// The cursor lies inside its grid.
    pub open spec fn wf(self) -> bool {
        &&& self.cursor_pos.0 < self.rows
        &&& self.cursor_pos.1 < self.cols
    }

    /// The row of the active cell.
    pub open spec fn row(self) -> int {
        self.cursor_pos.0 as int
    }

    /// The column of the active cell.
    pub open spec fn col(self) -> int {
        self.cursor_pos.1 as int
    }

    /// The cursor after a step to the right: one column further and
    /// selected, or as it was where it stands on the last column.
    pub open spec fn right(self) -> Cursor {
        if self.col() + 1 < self.cols {
            Cursor {
                selected: true,
                cursor_pos: (self.cursor_pos.0, (self.col() + 1) as usize),
                ..self
            }
        } else {
            self
        }
    }

    /// The cursor after a step to the left: as it was where it stands on
    /// the first column. Elsewhere it is selected, and one column back if it
    /// was selected before.
    pub open spec fn left(self) -> Cursor {
        if self.col() == 0 {
            self
        } else if self.selected {
            Cursor { cursor_pos: (self.cursor_pos.0, (self.col() - 1) as usize), ..self }
        } else {
            Cursor { selected: true, ..self }
        }
    }

    /// The cursor after a step down: one row further in the same column, or
    /// as it was where it stands on the last row.
    pub open spec fn down(self) -> Cursor {
        if self.row() + 1 < self.rows {
            Cursor { cursor_pos: ((self.row() + 1) as usize, self.cursor_pos.1), ..self }
        } else {
            self
        }
    }

    /// The cursor on the first column of its row.
    pub open spec fn home(self) -> Cursor {
        Cursor { cursor_pos: (self.cursor_pos.0, 0), ..self }
    }

    /// Moves one column to the right and selects the new cell.
    ///
    /// On the last column nothing changes and the result is `false`.
    pub fn move_right(&mut self) -> (moved: bool)
        ensures
            moved == (old(self).col() + 1 < old(self).cols),
            *final(self) == old(self).right(),
            !moved ==> *final(self) == *old(self),
            old(self).wf() ==> final(self).wf(),
    {
        if self.cols == 0 || self.cursor_pos.1 >= self.cols - 1 {
            return false;
        }
        self.cursor_pos.1 += 1;
        self.selected = true;
        true
    }

    /// Moves one column to the left, or selects the cell it is on.
    ///
    /// On the first column nothing changes and the result is `false`.
    /// Elsewhere the result is `true`: a selected cursor steps back by one
    /// column, an unselected one stays where it is, and either way the
    /// cursor is selected afterwards.
    pub fn move_left(&mut self) -> (moved: bool)
        ensures
            moved == (old(self).col() != 0),
            *final(self) == old(self).left(),
            !moved ==> *final(self) == *old(self),
            old(self).wf() ==> final(self).wf(),
    {
        if self.cursor_pos.1 == 0 {
            return false;
        }
        if self.selected {
            self.cursor_pos.1 -= 1;
        }
        self.selected = true;
        true
    }

    /// Moves one row down, keeping the column.
    ///
    /// On the last row nothing changes and the result is `false`.
    pub fn move_down(&mut self) -> (moved: bool)
        ensures
            moved == (old(self).row() + 1 < old(self).rows),
            *final(self) == old(self).down(),
            !moved ==> *final(self) == *old(self),
            old(self).wf() ==> final(self).wf(),
    {
        if self.rows == 0 || self.cursor_pos.0 >= self.rows - 1 {
            return false;
        }
        self.cursor_pos.0 += 1;
        true
    }

    /// Whether `pos`, as `(row, col)`, is the active cell.
    pub fn is_cursor_on_pos(&self, pos: (usize, usize)) -> (on: bool)
        ensures
            on == (pos == self.cursor_pos),
    {
        pos.0 == self.cursor_pos.0 && pos.1 == self.cursor_pos.1
    }

    /// Returns to the first column of the current row.
    pub fn col_reset(&mut self)
        ensures
            *final(self) == old(self).home(),
            old(self).wf() ==> final(self).wf(),
    {
        self.cursor_pos.1 = 0;
    }
}

/// A cursor on an edge of its grid does not move past it: on the last
/// column a step to the right, on the first column a step to the left, and
/// on the last row a step down each leave the cursor as it was.
pub proof fn lemma_edges_stop_the_cursor(cursor: Cursor)
    requires
        cursor.wf(),
    ensures
        cursor.col() == cursor.cols - 1 ==> cursor.right() == cursor,
        cursor.col() == 0 ==> cursor.left() == cursor,
        cursor.row() == cursor.rows - 1 ==> cursor.down() == cursor,
{
}

/// A step of the cursor leaves it inside its grid, and on its row unless
/// the step is one down.
pub proof fn lemma_steps_stay_in_grid(cursor: Cursor)
    requires
        cursor.wf(),
    ensures
        cursor.right().wf(),
        cursor.left().wf(),
        cursor.down().wf(),
        cursor.home().wf(),
        cursor.right().row() == cursor.row(),
        cursor.left().row() == cursor.row(),
        cursor.home().row() == cursor.row(),
{
}

} // verus!
