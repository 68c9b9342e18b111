use wordle::cursor::Cursor;

fn cursor_at(row: usize, col: usize, selected: bool) -> Cursor {
    Cursor { selected, cursor_pos: (row, col), cols: 5, rows: 6 }
}

#[test]
fn move_right_steps_and_selects() {
    let mut cursor = cursor_at(2, 1, false);
    assert!(cursor.move_right());
    assert_eq!(cursor.cursor_pos, (2, 2));
    assert!(cursor.selected);
    assert_eq!((cursor.rows, cursor.cols), (6, 5));
}

#[test]
fn move_right_stops_on_the_last_column() {
    let mut cursor = cursor_at(2, 4, false);
    assert!(!cursor.move_right());
    assert_eq!(cursor.cursor_pos, (2, 4));
    assert!(!cursor.selected);

    let mut cursor = cursor_at(0, 4, true);
    assert!(!cursor.move_right());
    assert_eq!(cursor.cursor_pos, (0, 4));
    assert!(cursor.selected);
}

#[test]
fn move_right_reaches_the_last_column() {
    let mut cursor = cursor_at(1, 3, true);
    assert!(cursor.move_right());
    assert_eq!(cursor.cursor_pos, (1, 4));
    assert!(!cursor.move_right());
    assert_eq!(cursor.cursor_pos, (1, 4));
}

#[test]
fn move_left_steps_back_when_selected() {
    let mut cursor = cursor_at(3, 2, true);
    assert!(cursor.move_left());
    assert_eq!(cursor.cursor_pos, (3, 1));
    assert!(cursor.selected);
}

#[test]
fn move_left_first_selects_an_unselected_cell() {
    let mut cursor = cursor_at(3, 4, false);
    assert!(cursor.move_left());
    assert_eq!(cursor.cursor_pos, (3, 4));
    assert!(cursor.selected);
    assert!(cursor.move_left());
    assert_eq!(cursor.cursor_pos, (3, 3));
    assert!(cursor.selected);
}

#[test]
fn move_left_stops_on_the_first_column() {
    let mut cursor = cursor_at(3, 0, true);
    assert!(!cursor.move_left());
    assert_eq!(cursor.cursor_pos, (3, 0));
    assert!(cursor.selected);

    let mut cursor = cursor_at(3, 0, false);
    assert!(!cursor.move_left());
    assert_eq!(cursor.cursor_pos, (3, 0));
    assert!(!cursor.selected);
}

#[test]
fn move_down_keeps_the_column_and_the_selection() {
    let mut cursor = cursor_at(0, 3, false);
    assert!(cursor.move_down());
    assert_eq!(cursor.cursor_pos, (1, 3));
    assert!(!cursor.selected);
}

#[test]
fn move_down_stops_on_the_last_row() {
    let mut cursor = cursor_at(5, 2, true);
    assert!(!cursor.move_down());
    assert_eq!(cursor.cursor_pos, (5, 2));
    assert!(cursor.selected);
}

#[test]
fn move_down_walks_every_row_once() {
    let mut cursor = cursor_at(0, 0, true);
    let mut steps = 0;
    while cursor.move_down() {
        steps += 1;
    }
    assert_eq!(steps, 5);
    assert_eq!(cursor.cursor_pos, (5, 0));
}

#[test]
fn moves_on_a_grid_without_cells_do_nothing() {
    let mut cursor = Cursor::default();
    assert!(!cursor.move_right());
    assert!(!cursor.move_left());
    assert!(!cursor.move_down());
    assert_eq!(cursor.cursor_pos, (0, 0));
    assert!(!cursor.selected);
}

#[test]
fn is_cursor_on_pos_compares_row_and_column() {
    let cursor = cursor_at(2, 3, true);
    assert!(cursor.is_cursor_on_pos((2, 3)));
    assert!(!cursor.is_cursor_on_pos((3, 2)));
    assert!(!cursor.is_cursor_on_pos((2, 2)));
    assert!(!cursor.is_cursor_on_pos((1, 3)));
}

#[test]
fn col_reset_returns_to_the_first_column() {
    let mut cursor = cursor_at(4, 3, false);
    cursor.col_reset();
    assert_eq!(cursor.cursor_pos, (4, 0));
    assert!(!cursor.selected);
}
