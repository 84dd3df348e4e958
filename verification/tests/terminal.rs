use termotion::grid::{Grid, Overflow};
use termotion::style::{StyleId, TextStyle};
use termotion::terminal::TerminalState;
use unicode_segmentation::UnicodeSegmentation;

#[test]
fn new_grid_is_blank_and_correctly_sized() {
    let grid = Grid::new(80, 24);
    assert_eq!((grid.cols(), grid.rows()), (80, 24));
    let row = grid.row(0).expect("row 0 exists");
    assert_eq!(row.cells.len(), 80);
    assert_eq!(row.cells[0].g.as_str(), " ");
    assert!(row.id.is_none());
}

#[test]
fn out_of_range_rows_return_none_rather_than_panicking() {
    let mut grid = Grid::new(10, 2);
    assert!(grid.row(2).is_none());
    assert!(grid.row_mut(99).is_none());
}

#[test]
fn scrolling_discards_the_top_and_appends_blank_rows() {
    let mut grid = Grid::new(4, 3);
    for (i, id) in ["a", "b", "c"].iter().enumerate() {
        grid.row_mut(i as u16).unwrap().id = Some(id.to_string());
    }
    grid.scroll_up(1);
    assert_eq!(grid.row(0).unwrap().id.as_deref(), Some("b"));
    assert_eq!(grid.row(1).unwrap().id.as_deref(), Some("c"));
    assert!(grid.row(2).unwrap().id.is_none());
}

#[test]
fn scrolling_past_the_end_blanks_everything() {
    let mut grid = Grid::new(4, 3);
    grid.row_mut(0).unwrap().id = Some("a".to_string());
    grid.scroll_up(10);
    assert!(grid.row(0).unwrap().id.is_none());
    assert_eq!(grid.rows(), 3);
}

#[test]
fn clear_blanks_cells_and_drops_row_ids() {
    let mut grid = Grid::new(4, 2);
    grid.row_mut(0).unwrap().id = Some("camera".to_string());
    grid.row_mut(0).unwrap().cells[0].g = "X".to_string();
    grid.clear();
    assert!(grid.row(0).unwrap().id.is_none());
    assert_eq!(grid.row(0).unwrap().cells[0].g.as_str(), " ");
}

#[test]
fn rows_are_findable_by_id_after_scrolling() {
    let mut grid = Grid::new(4, 3);
    grid.row_mut(2).unwrap().id = Some("camera".to_string());
    assert_eq!(grid.find_row_by_id("camera"), Some(2));
    grid.scroll_up(1);
    assert_eq!(grid.find_row_by_id("camera"), Some(1));
    grid.scroll_up(2);
    assert_eq!(grid.find_row_by_id("camera"), None);
}

fn text_of_row(state: &TerminalState, row: u16) -> String {
    state
        .grid
        .row(row)
        .map(|r| r.cells.iter().map(|c| c.g.as_str()).collect::<String>())
        .unwrap_or_default()
        .trim_end()
        .to_string()
}

fn write(state: &mut TerminalState, text: &str) {
    for g in text.graphemes(true) {
        state.put_grapheme(g);
    }
}

#[test]
fn writes_advance_the_cursor_one_column_per_grapheme() {
    let mut state = TerminalState::new(20, 4, Overflow::Scroll);
    write(&mut state, "hi");
    assert_eq!(text_of_row(&state, 0), "hi");
    assert_eq!((state.cursor.row, state.cursor.col), (0, 2));
}

#[test]
fn combining_marks_occupy_a_single_cell() {
    let mut state = TerminalState::new(20, 4, Overflow::Scroll);
    write(&mut state, "e\u{0301}x");
    assert_eq!(state.cursor.col, 2);
    assert_eq!(state.grid.row(0).unwrap().cells[1].g.as_str(), "x");
}

#[test]
fn wide_glyphs_take_two_cells_with_a_zero_width_continuation() {
    let mut state = TerminalState::new(20, 4, Overflow::Scroll);
    write(&mut state, "世a");
    let cells = &state.grid.row(0).unwrap().cells;
    assert_eq!(cells[0].width, 2);
    assert_eq!(cells[1].width, 0);
    assert_eq!(cells[2].g.as_str(), "a");
    assert_eq!(state.cursor.col, 3);
}

#[test]
fn wide_glyph_with_exactly_one_column_left_wraps_instead_of_splitting() {
    let mut state = TerminalState::new(3, 4, Overflow::Scroll);
    write(&mut state, "ab");
    assert_eq!(state.cursor.col, 2);
    write(&mut state, "世");
    assert_eq!(text_of_row(&state, 0), "ab");
    let cells = &state.grid.row(1).unwrap().cells;
    assert_eq!(cells[0].g.as_str(), "世");
    assert_eq!(cells[0].width, 2);
    assert_eq!(cells[1].width, 0);
    assert_eq!((state.cursor.row, state.cursor.col), (1, 2));
}

#[test]
fn writing_past_the_last_column_wraps_to_the_next_row() {
    let mut state = TerminalState::new(3, 4, Overflow::Scroll);
    write(&mut state, "abcd");
    assert_eq!(text_of_row(&state, 0), "abc");
    assert_eq!(text_of_row(&state, 1), "d");
    assert_eq!((state.cursor.row, state.cursor.col), (1, 1));
}

#[test]
fn newline_returns_to_column_zero_on_the_next_row() {
    let mut state = TerminalState::new(10, 4, Overflow::Scroll);
    write(&mut state, "ab");
    state.newline();
    assert_eq!((state.cursor.row, state.cursor.col), (1, 0));
}

#[test]
fn scroll_overflow_shifts_content_up_and_counts_scrolls() {
    let mut state = TerminalState::new(10, 2, Overflow::Scroll);
    write(&mut state, "one");
    state.newline();
    write(&mut state, "two");
    state.newline();
    write(&mut state, "three");
    assert_eq!(text_of_row(&state, 0), "two");
    assert_eq!(text_of_row(&state, 1), "three");
    assert_eq!(state.cursor.row, 1);
    assert_eq!(state.scrolled, 1);
}

#[test]
fn clip_overflow_drops_writes_past_the_last_row() {
    let mut state = TerminalState::new(10, 2, Overflow::Clip);
    write(&mut state, "one");
    state.newline();
    write(&mut state, "two");
    state.newline();
    write(&mut state, "three");
    assert_eq!(text_of_row(&state, 0), "one");
    assert_eq!(text_of_row(&state, 1), "two");
    assert_eq!(state.scrolled, 0);
    assert_eq!(state.cursor.row, 2);
}

#[test]
fn backspace_erases_the_previous_cell() {
    let mut state = TerminalState::new(10, 2, Overflow::Scroll);
    write(&mut state, "abc");
    state.backspace();
    assert_eq!(text_of_row(&state, 0), "ab");
    assert_eq!(state.cursor.col, 2);
}

#[test]
fn backspace_over_a_wide_glyph_erases_both_cells() {
    let mut state = TerminalState::new(10, 2, Overflow::Scroll);
    write(&mut state, "世");
    state.backspace();
    assert_eq!(state.cursor.col, 0);
    assert!(state.grid.row(0).unwrap().cells[0].is_blank());
    assert_eq!(state.grid.row(0).unwrap().cells[1].width, 1);
}

#[test]
fn backspace_at_column_zero_is_a_no_op() {
    let mut state = TerminalState::new(10, 2, Overflow::Scroll);
    state.backspace();
    assert_eq!((state.cursor.row, state.cursor.col), (0, 0));
}

#[test]
fn clear_blanks_the_grid_and_homes_the_cursor() {
    let mut state = TerminalState::new(10, 2, Overflow::Scroll);
    write(&mut state, "abc");
    state.clear();
    assert_eq!(text_of_row(&state, 0), "");
    assert_eq!((state.cursor.row, state.cursor.col), (0, 0));
}

#[test]
fn write_row_replaces_a_row_and_tags_it_with_an_id() {
    let mut state = TerminalState::new(20, 3, Overflow::Scroll);
    let style = state.styles.intern(TextStyle::default());
    state.write_row(
        1,
        &[("[ .. ] ".to_string(), style), ("camera".to_string(), style)],
        Some("camera".to_string()),
    );
    assert_eq!(text_of_row(&state, 1), "[ .. ] camera");
    assert_eq!(state.grid.find_row_by_id("camera"), Some(1));
}

#[test]
fn write_row_out_of_range_is_ignored() {
    let mut state = TerminalState::new(20, 2, Overflow::Scroll);
    state.write_row(99, &[("x".to_string(), StyleId::default_id())], None);
    assert_eq!(text_of_row(&state, 0), "");
}

#[test]
fn write_row_truncates_at_the_last_column() {
    let mut state = TerminalState::new(3, 2, Overflow::Scroll);
    state.write_row(0, &[("abcdef".to_string(), StyleId::default_id())], None);
    assert_eq!(text_of_row(&state, 0), "abc");
}
