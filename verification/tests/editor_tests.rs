use zim::buffer::Buffer;
use zim::editor::Editor;
use zim::editor::EditorError;
use zim::editor::PasteDirection;
use zim::editor::PasteResult;
use zim::editor::YankManager;

fn echars(t: &str) -> Vec<char> {
    t.chars().collect()
}

fn etext(v: &Vec<char>) -> String {
    v.iter().collect()
}

#[test]
fn test_yank_manager_new() {
    let ym = YankManager::new();
    assert!(ym.is_empty());
    assert!(!ym.is_newline_yank());
}

#[test]
fn test_yank_manager_yank_inline() {
    let mut ym = YankManager::new();
    ym.yank_inline(echars("hello"));

    assert!(!ym.is_empty());
    assert!(!ym.is_newline_yank());
    assert_eq!(ym.content(), &vec![echars("hello")]);
}

#[test]
fn test_yank_manager_yank_line() {
    let mut ym = YankManager::new();
    ym.yank_line(echars("line content"));

    assert!(!ym.is_empty());
    assert!(ym.is_newline_yank());
    assert_eq!(ym.content(), &vec![echars("line content")]);
}

#[test]
fn test_yank_manager_type_change() {
    let mut ym = YankManager::new();

    ym.yank_inline(echars("char"));
    assert!(!ym.is_newline_yank());

    ym.yank_line(echars("line"));
    assert!(ym.is_newline_yank());

    ym.yank_inline(echars("char2"));
    assert!(!ym.is_newline_yank());
}

#[test]
fn test_editor_new() {
    let editor = Editor::new();
    assert!(editor.buffer().is_empty());
    assert!(!editor.is_dirty());
    assert_eq!(editor.filename(), None);
}

#[test]
fn test_editor_insert_char() {
    let mut editor = Editor::new();
    editor.insert_char(0, 0, 'a');

    assert!(editor.is_dirty());
    assert_eq!(editor.buffer().len(), 1);
    assert_eq!(etext(editor.buffer().row(0).unwrap().chars()), "a");
}

#[test]
fn test_editor_delete_line() {
    let mut editor = Editor::new();
    editor.buffer_mut().insert_row(0, echars("line1"));
    editor.buffer_mut().insert_row(1, echars("line2"));

    let success = editor.delete_line(0);

    assert!(success);
    assert!(editor.is_dirty());
    assert_eq!(editor.buffer().len(), 1);
    assert_eq!(etext(editor.buffer().row(0).unwrap().chars()), "line2");
    assert!(editor.yank().is_newline_yank());
    assert_eq!(editor.yank().content(), &vec![echars("line1")]);
}

#[test]
fn test_editor_yank_line() {
    let mut editor = Editor::new();
    editor.buffer_mut().insert_row(0, echars("content"));

    let success = editor.yank_line(0);

    assert!(success);
    assert!(!editor.is_dirty());
    assert_eq!(editor.buffer().len(), 1);
    assert!(editor.yank().is_newline_yank());
    assert_eq!(editor.yank().content(), &vec![echars("content")]);
}

#[test]
fn test_editor_delete_char_at_cursor() {
    let mut editor = Editor::new();
    editor.buffer_mut().insert_row(0, echars("hello"));

    let success = editor.delete_char_at_cursor(0, 0);

    assert!(success);
    assert!(editor.is_dirty());
    assert_eq!(etext(editor.buffer().row(0).unwrap().chars()), "ello");
    assert!(!editor.yank().is_newline_yank());
    assert_eq!(editor.yank().content(), &vec![echars("h")]);
}

#[test]
fn test_editor_paste_newline_below() {
    let mut editor = Editor::new();
    editor.buffer_mut().insert_row(0, echars("line1"));
    editor.yank_mut().yank_line(echars("yanked"));

    let result = editor.paste(0, 0, PasteDirection::Below);

    assert!(matches!(result, PasteResult::Below));
    assert_eq!(editor.buffer().len(), 2);
    assert_eq!(etext(editor.buffer().row(0).unwrap().chars()), "line1");
    assert_eq!(etext(editor.buffer().row(1).unwrap().chars()), "yanked");
}

#[test]
fn test_editor_paste_newline_above() {
    let mut editor = Editor::new();
    editor.buffer_mut().insert_row(0, echars("line1"));
    editor.yank_mut().yank_line(echars("yanked"));

    let result = editor.paste(0, 0, PasteDirection::Above);

    assert!(matches!(result, PasteResult::Above));
    assert_eq!(editor.buffer().len(), 2);
    assert_eq!(etext(editor.buffer().row(0).unwrap().chars()), "yanked");
    assert_eq!(etext(editor.buffer().row(1).unwrap().chars()), "line1");
}

#[test]
fn test_editor_paste_inline_below() {
    let mut editor = Editor::new();
    editor.buffer_mut().insert_row(0, echars("helo"));
    editor.yank_mut().yank_inline(echars("l"));

    let result = editor.paste(0, 2, PasteDirection::Below);

    assert!(matches!(result, PasteResult::InLine));
    assert_eq!(etext(editor.buffer().row(0).unwrap().chars()), "hello");
}

#[test]
fn test_editor_paste_inline_above() {
    let mut editor = Editor::new();
    editor.buffer_mut().insert_row(0, echars("helo"));
    editor.yank_mut().yank_inline(echars("l"));

    let result = editor.paste(0, 3, PasteDirection::Above);

    assert!(matches!(result, PasteResult::InLine));
    assert_eq!(etext(editor.buffer().row(0).unwrap().chars()), "hello");
}

#[test]
fn test_editor_paste_empty() {
    let mut editor = Editor::new();
    editor.buffer_mut().insert_row(0, echars("line"));

    let result = editor.paste(0, 0, PasteDirection::Below);

    assert!(matches!(result, PasteResult::Empty));
    assert_eq!(editor.buffer().len(), 1);
}

#[test]
fn test_delete_char_then_paste_below() {
    // Buffer ["hello"], cursor at (0,0): `x` deletes 'h' leaving "ello" and
    // the register holding "h" in-line; `p` pastes below at column 0, which
    // splices at column 1, giving "ehllo".
    let mut editor = Editor::new();
    editor.buffer_mut().insert_row(0, echars("hello"));

    assert!(editor.delete_char_at_cursor(0, 0));
    assert_eq!(etext(editor.buffer().row(0).unwrap().chars()), "ello");
    assert!(!editor.yank().is_newline_yank());
    assert_eq!(editor.yank().content(), &vec![echars("h")]);

    let result = editor.paste(0, 0, PasteDirection::Below);
    assert!(matches!(result, PasteResult::InLine));
    assert_eq!(etext(editor.buffer().row(0).unwrap().chars()), "ehllo");
}

#[test]
fn test_delete_line_two_rows() {
    // `dd` on ["line1", "line2"] at row 0: the buffer becomes ["line2"], the
    // register holds the whole line "line1", and the session is dirty.
    let buffer = {
        let mut b = Buffer::new();
        b.insert_row(0, echars("line1"));
        b.insert_row(1, echars("line2"));
        b
    };
    let mut editor = Editor::from_buffer(buffer, None, false);
    assert!(!editor.is_dirty());

    assert!(editor.delete_line(0));
    assert_eq!(editor.buffer().len(), 1);
    assert_eq!(etext(editor.buffer().row(0).unwrap().chars()), "line2");
    assert!(editor.yank().is_newline_yank());
    assert_eq!(editor.yank().content(), &vec![echars("line1")]);
    assert!(editor.is_dirty());
}

#[test]
fn test_yank_line_then_paste_below() {
    // `yy` then `p`: the yanked line appears right below the cursor row and
    // the surrounding content is untouched.
    let mut editor = Editor::new();
    editor.buffer_mut().insert_row(0, echars("first"));
    editor.buffer_mut().insert_row(1, echars("second"));

    assert!(editor.yank_line(0));
    let result = editor.paste(0, 0, PasteDirection::Below);
    assert!(matches!(result, PasteResult::Below));
    assert_eq!(editor.buffer().len(), 3);
    assert_eq!(etext(editor.buffer().row(0).unwrap().chars()), "first");
    assert_eq!(etext(editor.buffer().row(1).unwrap().chars()), "first");
    assert_eq!(etext(editor.buffer().row(2).unwrap().chars()), "second");
}

#[test]
fn test_editor_paste_inline_clamps_to_row_end() {
    let mut editor = Editor::new();
    editor.buffer_mut().insert_row(0, echars("ab"));
    editor.yank_mut().yank_inline(echars("X"));

    // Below at the last column: the splice is clamped to the row end.
    let result = editor.paste(0, 1, PasteDirection::Below);
    assert!(matches!(result, PasteResult::InLine));
    assert_eq!(etext(editor.buffer().row(0).unwrap().chars()), "abX");
}

#[test]
fn test_editor_save_content_without_filename() {
    let editor = Editor::new();
    assert!(matches!(
        editor.save_content(),
        Err(EditorError::NoFilename)
    ));
}

#[test]
fn test_editor_save_and_reload_flow() {
    let mut editor = Editor::new();
    editor.open_file("notes.txt".to_string(), &echars("alpha\nbeta\n"));
    assert_eq!(editor.filename(), Some("notes.txt"));
    assert_eq!(editor.buffer().len(), 2);
    assert!(!editor.is_dirty());

    editor.insert_char(0, 5, '!');
    assert!(editor.is_dirty());

    let saved = editor.save_content().unwrap();
    assert_eq!(etext(&saved), "alpha!\nbeta\n");
    editor.mark_saved();
    assert!(!editor.is_dirty());

    editor.reload(&echars("gamma"));
    assert_eq!(editor.buffer().len(), 1);
    assert_eq!(etext(editor.buffer().row(0).unwrap().chars()), "gamma");
    assert_eq!(editor.filename(), Some("notes.txt"));
    assert!(!editor.is_dirty());
}

#[test]
fn test_editor_yank_survives_open() {
    let mut editor = Editor::new();
    editor.buffer_mut().insert_row(0, echars("keep me"));
    assert!(editor.yank_line(0));
    editor.open_file("other.txt".to_string(), &echars("new content"));
    assert!(editor.yank().is_newline_yank());
    assert_eq!(editor.yank().content(), &vec![echars("keep me")]);
}

#[test]
fn test_editor_buffer_info() {
    let mut editor = Editor::new();
    editor.buffer_mut().insert_row(0, echars("abc"));
    editor.buffer_mut().insert_row(1, echars("d"));
    assert_eq!(editor.buffer_info(0), (2, 3));
    assert_eq!(editor.buffer_info(1), (2, 1));
    // A row index past the end is clamped to the last row.
    assert_eq!(editor.buffer_info(9), (2, 1));
    assert_eq!(editor.current_line_len(0), 3);
    assert_eq!(editor.current_line_len(5), 0);
    let empty = Editor::new();
    assert_eq!(empty.buffer_info(0), (0, 0));
}
