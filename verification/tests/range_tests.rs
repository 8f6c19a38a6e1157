use zim::editor::Editor;
use zim::position::Position;

fn rchars(t: &str) -> Vec<char> {
    t.chars().collect()
}

fn rtext(v: &Vec<char>) -> String {
    v.iter().collect()
}

fn editor_with(rows: &[&str]) -> Editor {
    let mut editor = Editor::new();
    for (i, row) in rows.iter().enumerate() {
        editor.buffer_mut().insert_row(i, rchars(row));
    }
    editor
}

#[test]
fn test_yank_range_single_row_inclusive() {
    // A single-row selection [start.col, end.col] yanks exactly that
    // inclusive substring, as an in-line fragment.
    let mut editor = editor_with(&["abcdef"]);
    assert!(editor.yank_range(
        Position { row: 0, col: 1 },
        Position { row: 0, col: 3 }
    ));
    assert!(!editor.yank().is_newline_yank());
    assert_eq!(editor.yank().content(), &vec![rchars("bcd")]);
    assert!(!editor.is_dirty());
    assert_eq!(rtext(editor.buffer().row(0).unwrap().chars()), "abcdef");
}

#[test]
fn test_yank_range_normalizes_reversed_selection() {
    let mut editor = editor_with(&["abcdef"]);
    assert!(editor.yank_range(
        Position { row: 0, col: 3 },
        Position { row: 0, col: 1 }
    ));
    assert_eq!(editor.yank().content(), &vec![rchars("bcd")]);
}

#[test]
fn test_yank_range_multi_row() {
    let mut editor = editor_with(&["first", "middle", "last"]);
    assert!(editor.yank_range(
        Position { row: 0, col: 2 },
        Position { row: 2, col: 1 }
    ));
    assert!(editor.yank().is_newline_yank());
    assert_eq!(
        editor.yank().content(),
        &vec![rchars("rst"), rchars("middle"), rchars("la")]
    );
    assert_eq!(editor.buffer().len(), 3);
}

#[test]
fn test_delete_range_single_row() {
    let mut editor = editor_with(&["abcdef"]);
    assert!(editor.delete_range(
        Position { row: 0, col: 1 },
        Position { row: 0, col: 3 }
    ));
    assert_eq!(rtext(editor.buffer().row(0).unwrap().chars()), "aef");
    assert_eq!(editor.yank().content(), &vec![rchars("bcd")]);
    assert!(editor.is_dirty());
}

#[test]
fn test_delete_range_multi_row_reconstructs() {
    // The concatenation of the per-row extraction plus the join performed by
    // the delete reconstructs the original text with the selection removed.
    let mut editor = editor_with(&["first", "middle", "last"]);
    assert!(editor.delete_range(
        Position { row: 0, col: 2 },
        Position { row: 2, col: 1 }
    ));
    assert_eq!(editor.buffer().len(), 1);
    assert_eq!(rtext(editor.buffer().row(0).unwrap().chars()), "fist");
    let yanked: Vec<String> = editor.yank().content().iter().map(rtext).collect();
    assert_eq!(yanked, vec!["rst", "middle", "la"]);
    assert!(editor.is_dirty());

    // Splicing the yank back where it was removed restores the original.
    let removed = rtext(editor.buffer().row(0).unwrap().chars());
    let restored = format!("{}{}{}", &removed[..2], yanked.join("\n"), &removed[2..]);
    assert_eq!(restored, "first\nmiddle\nlast");
}

#[test]
fn test_delete_range_two_adjacent_rows() {
    let mut editor = editor_with(&["abcd", "wxyz"]);
    assert!(editor.delete_range(
        Position { row: 0, col: 1 },
        Position { row: 1, col: 1 }
    ));
    assert_eq!(editor.buffer().len(), 1);
    assert_eq!(rtext(editor.buffer().row(0).unwrap().chars()), "ayz");
    assert_eq!(
        editor.yank().content(),
        &vec![rchars("bcd"), rchars("wx")]
    );
}

#[test]
fn test_range_on_empty_buffer_is_refused() {
    let mut editor = Editor::new();
    assert!(!editor.yank_range(
        Position { row: 0, col: 0 },
        Position { row: 0, col: 0 }
    ));
    assert!(!editor.delete_range(
        Position { row: 0, col: 0 },
        Position { row: 0, col: 0 }
    ));
    assert!(!editor.is_dirty());
}

#[test]
fn test_delete_range_end_clamped_to_buffer() {
    // A selection whose end row lies past the buffer is clamped to the end
    // of the last row.
    let mut editor = editor_with(&["abc", "def"]);
    assert!(editor.delete_range(
        Position { row: 1, col: 1 },
        Position { row: 5, col: 0 }
    ));
    assert_eq!(editor.buffer().len(), 2);
    assert_eq!(rtext(editor.buffer().row(0).unwrap().chars()), "abc");
    assert_eq!(rtext(editor.buffer().row(1).unwrap().chars()), "d");
    assert_eq!(editor.yank().content(), &vec![rchars("ef")]);
}
