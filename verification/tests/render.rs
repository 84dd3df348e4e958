use termotion::color::Color;
use termotion::frame::Frame;
use termotion::geom::Point;
use termotion::pipeline::GlyphMask;
use termotion::glyphs::{composite_fits, composite_glyphs, PlacedGlyph};
use termotion::render::{draw_cursor, paint_mask, same_cells};
use termotion::terminal::CursorStyle;

fn black(width: u32, height: u32) -> Frame {
    let mut f = Frame::new(width, height);
    f.fill(Color::black());
    f
}

fn inked(frame: &Frame) -> Vec<(u32, u32)> {
    let mut out = Vec::new();
    for y in 0..frame.height() {
        for x in 0..frame.width() {
            if frame.pixel(x, y) != Color::black() {
                out.push((x, y));
            }
        }
    }
    out
}

#[test]
fn a_block_cursor_fills_its_whole_cell() {
    let mut f = black(10, 10);
    let green = Color::rgb(0, 255, 0);
    draw_cursor(&mut f, 3, 4, 2, Point { x: 1, y: 1 }, 1, 2, CursorStyle::Block, green);
    let cells = inked(&f);
    assert_eq!(cells.len(), 12);
    assert_eq!(f.pixel(7, 5), green);
    assert_eq!(f.pixel(9, 8), green);
    assert_eq!(f.pixel(6, 5), Color::black());
}

#[test]
fn underline_and_bar_cursors_are_strips() {
    let green = Color::rgb(0, 255, 0);
    let mut underline = black(10, 10);
    draw_cursor(&mut underline, 3, 4, 1, Point { x: 0, y: 0 }, 0, 0, CursorStyle::Underline, green);
    assert_eq!(inked(&underline), vec![(0, 3), (1, 3), (2, 3)]);
    let mut bar = black(10, 10);
    draw_cursor(&mut bar, 3, 4, 1, Point { x: 0, y: 0 }, 0, 0, CursorStyle::Bar, green);
    assert_eq!(inked(&bar), vec![(0, 0), (0, 1), (0, 2), (0, 3)]);
}

#[test]
fn a_cursor_past_the_frame_edge_is_clipped() {
    let mut f = black(4, 4);
    draw_cursor(&mut f, 3, 4, 1, Point { x: 0, y: 0 }, 0, 1, CursorStyle::Block, Color::white());
    assert_eq!(inked(&f).len(), 4);
}

#[test]
fn a_glyph_mask_is_composited_at_its_coverage() {
    let mut f = black(6, 6);
    let mask = GlyphMask { width: 2, height: 2, left: 1, top: 3, alpha: vec![255, 0, 0, 128] };
    paint_mask(&mut f, &mask, 1, 4, Color::rgb(200, 200, 200));
    assert_eq!(f.pixel(2, 1), Color::rgb(200, 200, 200));
    assert_eq!(f.pixel(3, 1), Color::black());
    assert_eq!(f.pixel(2, 2), Color::black());
    assert_eq!(f.pixel(3, 2), Color::rgba(100, 100, 100, 255));
    assert_eq!(inked(&f).len(), 2);
}

#[test]
fn a_mask_overhanging_the_frame_is_clipped() {
    let mut f = black(2, 2);
    let mask = GlyphMask { width: 3, height: 3, left: -1, top: 1, alpha: vec![255; 9] };
    paint_mask(&mut f, &mask, 0, 0, Color::white());
    assert_eq!(inked(&f), vec![(0, 0), (1, 0), (0, 1), (1, 1)]);
}

use termotion::geom::Size;
use termotion::grid::{Cell, Overflow};
use termotion::render::{check_render_size, cursor_cell, paint_row};
use termotion::style::{StyleId, StyleTable};
use termotion::terminal::TerminalState;

fn cell(g: &str) -> Cell {
    Cell { g: g.to_string(), width: 1, style: StyleId::default_id() }
}

#[test]
fn a_row_is_cleared_then_each_inked_cell_is_drawn() {
    let mut f = black(6, 4);
    let dot = GlyphMask { width: 1, height: 1, left: 0, top: 1, alpha: vec![255] };
    let blue = Color::rgb(0, 0, 255);
    paint_row(
        &mut f,
        Point { x: 0, y: 0 },
        2,
        2,
        1,
        false,
        blue,
        1,
        &[cell("a"), cell(" "), cell("b")],
        &[Some(dot.clone()), Some(dot.clone()), Some(dot)],
        &StyleTable::new(),
    );
    assert_eq!(f.pixel(0, 2), Color::white());
    assert_eq!(f.pixel(2, 2), blue);
    assert_eq!(f.pixel(4, 2), Color::white());
    assert_eq!(f.pixel(5, 3), blue);
    assert_eq!(f.pixel(0, 0), Color::black());
    assert_eq!(f.pixel(0, 1), Color::black());
}

#[test]
fn a_target_frame_of_the_wrong_size_is_refused() {
    assert!(check_render_size(Size { width: 4, height: 2 }, &Frame::new(4, 2)).is_ok());
    assert!(check_render_size(Size { width: 4, height: 2 }, &Frame::new(8, 8)).is_err());
}

#[test]
fn a_parked_cursor_is_not_drawn() {
    let mut parked = TerminalState::new(10, 2, Overflow::Clip);
    parked.newline();
    parked.newline();
    parked.cursor.visible = true;
    assert_eq!(parked.cursor.row, parked.grid.rows());
    assert_eq!(cursor_cell(&parked), None);
    let mut state = TerminalState::new(4, 2, Overflow::Clip);
    assert_eq!(cursor_cell(&state), Some((0, 0)));
    state.cursor.row = 2;
    assert_eq!(cursor_cell(&state), None);
    state.cursor.row = 1;
    state.cursor.col = 4;
    assert_eq!(cursor_cell(&state), None);
    state.cursor.col = 3;
    state.cursor.visible = false;
    assert_eq!(cursor_cell(&state), None);
}

#[test]
fn overlapping_glyphs_merge_into_one_saturating_mask() {
    let glyphs = vec![
        PlacedGlyph { left: 0, top: 0, width: 2, height: 1, coverage: vec![100, 200] },
        PlacedGlyph { left: 1, top: 0, width: 2, height: 2, coverage: vec![100, 10, 20, 30] },
        PlacedGlyph { left: 50, top: 50, width: 0, height: 3, coverage: vec![] },
    ];
    assert!(composite_fits(&glyphs));
    let mask = composite_glyphs(&glyphs);
    assert_eq!((mask.width, mask.height, mask.left, mask.top), (3, 2, 0, 0));
    assert_eq!(mask.alpha, vec![100, 255, 10, 0, 20, 30]);
}

#[test]
fn glyphs_without_area_give_an_empty_mask() {
    let mask = composite_glyphs(&[PlacedGlyph { left: -4, top: 7, width: 0, height: 0, coverage: vec![] }]);
    assert_eq!((mask.width, mask.height, mask.left, mask.top), (0, 0, 0, 0));
    assert!(mask.alpha.is_empty());
}

#[test]
fn a_glyph_without_its_coverage_bytes_does_not_fit() {
    assert!(!composite_fits(&[PlacedGlyph { left: 0, top: 0, width: 2, height: 2, coverage: vec![1] }]));
}

#[test]
fn a_row_is_repainted_only_when_a_cell_changed() {
    let cell = |g: &str| Cell { g: g.to_string(), width: 1, style: StyleId::default_id() };
    let before = vec![cell("a"), cell("b")];
    assert!(same_cells(&before, &[cell("a"), cell("b")]));
    assert!(!same_cells(&before, &[cell("a"), cell("c")]));
    assert!(!same_cells(&before, &[cell("a")]));
    assert!(!same_cells(&[], &before));
}
