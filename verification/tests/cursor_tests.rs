use zim::cursor::Cursor;
use zim::position::Position;
use zim::position::normalize_range;

#[test]
fn test_cursor_new_starts_at_origin() {
    let c = Cursor::new();
    assert_eq!(c.x(), 1);
    assert_eq!(c.y(), 1);
    assert_eq!(c.row_offset(), 0);
    assert_eq!(c.col_offset(), 0);
    assert_eq!(c.file_row(), 0);
}

#[test]
fn test_cursor_vertical_moves() {
    let mut c = Cursor::new();
    c.move_up();
    assert_eq!(c.y(), 1);
    c.move_down(10, 3);
    c.move_down(10, 3);
    assert_eq!(c.y(), 3);
    // The last buffer row is reached: no further move.
    c.move_down(10, 3);
    assert_eq!(c.y(), 3);
    c.move_up();
    assert_eq!(c.y(), 2);
    // An empty buffer never moves.
    let mut d = Cursor::new();
    d.move_down(10, 0);
    assert_eq!(d.y(), 1);
}

#[test]
fn test_cursor_horizontal_moves() {
    let mut c = Cursor::new();
    c.move_left();
    assert_eq!(c.x(), 1);
    c.move_right(80, 3);
    c.move_right(80, 3);
    assert_eq!(c.x(), 3);
    // Normal mode: the last character is the last column.
    c.move_right(80, 3);
    assert_eq!(c.x(), 3);
    c.move_left();
    assert_eq!(c.x(), 2);
    // An empty line never moves.
    let mut d = Cursor::new();
    d.move_right(80, 0);
    assert_eq!(d.x(), 1);
}

#[test]
fn test_cursor_line_start_end() {
    let mut c = Cursor::new();
    c.move_to_line_end(7);
    assert_eq!(c.x(), 7);
    c.move_to_line_start();
    assert_eq!(c.x(), 1);
    c.move_to_line_end(0);
    assert_eq!(c.x(), 1);
}

#[test]
fn test_cursor_top_bottom() {
    let mut c = Cursor::new();
    // 100 rows on a 10-row screen: the last row sits on the last screen row.
    c.move_to_bottom(100, 10);
    assert_eq!(c.y(), 10);
    assert_eq!(c.row_offset(), 90);
    assert_eq!(c.file_row(), 99);
    c.move_to_top();
    assert_eq!(c.y(), 1);
    assert_eq!(c.row_offset(), 0);
    // 5 rows fit on the screen: no scroll.
    c.move_to_bottom(5, 10);
    assert_eq!(c.y(), 5);
    assert_eq!(c.row_offset(), 0);
    // An empty buffer resets.
    c.move_to_bottom(0, 10);
    assert_eq!(c.y(), 1);
    assert_eq!(c.row_offset(), 0);
}

#[test]
fn test_cursor_adjust_x() {
    let mut c = Cursor::new();
    c.move_to_line_end(9);
    c.adjust_cursor_x(4);
    assert_eq!(c.x(), 4);
    c.adjust_cursor_x(7);
    assert_eq!(c.x(), 4);
    c.adjust_cursor_x(0);
    assert_eq!(c.x(), 1);
}

#[test]
fn test_cursor_scroll_down_and_up() {
    let mut c = Cursor::new();
    // Move to row 14 of 20 on a 10-row screen: the viewport scrolls down.
    for _ in 0..14 {
        c.move_down(100, 20);
    }
    assert_eq!(c.y(), 15);
    c.scroll(10, 20);
    assert_eq!(c.row_offset(), 5);
    assert_eq!(c.y(), 10);
    assert_eq!(c.file_row(), 14);
    // Jump to the top: the viewport scrolls back up.
    c.move_to_top();
    c.scroll(10, 20);
    assert_eq!(c.row_offset(), 0);
    assert_eq!(c.y(), 1);
}

#[test]
fn test_cursor_scroll_snaps_after_shrink() {
    let mut c = Cursor::new();
    c.move_to_bottom(100, 10);
    // The buffer shrank to 3 rows: the cursor snaps to the last row.
    c.scroll(10, 3);
    assert_eq!(c.file_row(), 2);
    assert_eq!(c.row_offset(), 0);
    assert_eq!(c.y(), 3);
}

#[test]
fn test_cursor_scroll_idempotent() {
    // Running the scroll pass twice with no move in between changes nothing.
    let mut c = Cursor::new();
    c.move_to_bottom(50, 10);
    c.scroll(10, 37);
    let y1 = c.y();
    let off1 = c.row_offset();
    c.scroll(10, 37);
    assert_eq!(c.y(), y1);
    assert_eq!(c.row_offset(), off1);
}

#[test]
fn test_cursor_ensure_within_bounds_empty_buffer() {
    // An empty buffer always yields (x=1, y=1, row_offset=0).
    let mut c = Cursor::new();
    c.move_to_bottom(100, 10);
    c.move_to_line_end(40);
    c.ensure_within_bounds(0, 0, 10);
    assert_eq!(c.x(), 1);
    assert_eq!(c.y(), 1);
    assert_eq!(c.row_offset(), 0);
}

#[test]
fn test_cursor_ensure_within_bounds_after_shrink() {
    let mut c = Cursor::new();
    c.move_to_bottom(100, 10);
    c.move_to_line_end(40);
    // The buffer shrank to 4 rows whose current line has 2 characters.
    c.ensure_within_bounds(4, 2, 10);
    assert_eq!(c.file_row(), 3);
    assert_eq!(c.x(), 2);
}

#[test]
fn test_cursor_position_and_render_x() {
    let mut c = Cursor::new();
    c.move_down(10, 5);
    c.move_right(80, 4);
    c.move_right(80, 4);
    let p = c.position();
    assert_eq!(p, Position { row: 1, col: 2 });
    assert_eq!(c.render_x(), c.x());
}

#[test]
fn test_normalize_range_orders_positions() {
    let a = Position { row: 2, col: 1 };
    let b = Position { row: 0, col: 7 };
    assert_eq!(normalize_range(a, b), (b, a));
    assert_eq!(normalize_range(b, a), (b, a));
    let c = Position { row: 2, col: 0 };
    assert_eq!(normalize_range(a, c), (c, a));
    assert_eq!(normalize_range(a, a), (a, a));
}
