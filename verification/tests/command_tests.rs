use zim::command::CommandAction;
use zim::command::blocked_by_dirty;
use zim::command::parse_command;
use zim::mode::Mode;
use zim::mode::ModeManager;
use zim::position::Position;
use zim::screen::Screen;

fn cchars(t: &str) -> Vec<char> {
    t.chars().collect()
}

#[test]
fn test_parse_quit_commands() {
    assert!(matches!(parse_command(&cchars("q")), CommandAction::Quit));
    assert!(matches!(
        parse_command(&cchars("q!")),
        CommandAction::ForceQuit
    ));
    assert!(matches!(parse_command(&cchars(" q ")), CommandAction::Quit));
}

#[test]
fn test_parse_write_commands() {
    assert!(matches!(parse_command(&cchars("w")), CommandAction::Write));
    assert!(matches!(
        parse_command(&cchars("wq")),
        CommandAction::WriteQuit
    ));
}

#[test]
fn test_parse_edit_commands() {
    match parse_command(&cchars("e")) {
        CommandAction::Edit { filename, force } => {
            assert!(filename.is_none());
            assert!(!force);
        }
        _ => panic!("expected an edit command"),
    }
    match parse_command(&cchars("e! notes.txt")) {
        CommandAction::Edit { filename, force } => {
            assert_eq!(filename, Some(cchars("notes.txt")));
            assert!(force);
        }
        _ => panic!("expected an edit command"),
    }
    match parse_command(&cchars("e other.txt extra")) {
        CommandAction::Edit { filename, force } => {
            assert_eq!(filename, Some(cchars("other.txt")));
            assert!(!force);
        }
        _ => panic!("expected an edit command"),
    }
}

#[test]
fn test_parse_empty_and_unknown() {
    assert!(matches!(parse_command(&cchars("")), CommandAction::Nothing));
    assert!(matches!(
        parse_command(&cchars("   ")),
        CommandAction::Nothing
    ));
    assert!(matches!(
        parse_command(&cchars("quit")),
        CommandAction::Unknown
    ));
    assert!(matches!(
        parse_command(&cchars("x!")),
        CommandAction::Unknown
    ));
}

#[test]
fn test_dirty_guard() {
    // Plain quit and plain edit are blocked while changes are unsaved;
    // forced variants and writes never are.
    assert!(blocked_by_dirty(&CommandAction::Quit, true));
    assert!(!blocked_by_dirty(&CommandAction::Quit, false));
    assert!(!blocked_by_dirty(&CommandAction::ForceQuit, true));
    assert!(!blocked_by_dirty(&CommandAction::Write, true));
    assert!(!blocked_by_dirty(&CommandAction::WriteQuit, true));
    assert!(blocked_by_dirty(
        &CommandAction::Edit { filename: None, force: false },
        true
    ));
    assert!(!blocked_by_dirty(
        &CommandAction::Edit { filename: None, force: true },
        true
    ));
    assert!(!blocked_by_dirty(
        &CommandAction::Edit { filename: None, force: false },
        false
    ));
}

#[test]
fn test_mode_manager_transitions() {
    let mut modes = ModeManager::new();
    assert!(modes.is_normal());
    assert_eq!(modes.current(), Mode::Normal);

    modes.enter_insert();
    assert!(modes.is_insert());
    assert!(!modes.is_normal());

    modes.enter_normal();
    modes.enter_command();
    assert!(modes.is_command());

    modes.enter_normal();
    assert!(modes.is_normal());
}

#[test]
fn test_mode_visual_carries_anchor() {
    let mut modes = ModeManager::new();
    let anchor = Position { row: 3, col: 1 };
    modes.enter_visual(anchor);
    assert!(modes.is_visual());
    assert_eq!(modes.current(), Mode::Visual(anchor));
    assert_eq!(modes.visual_anchor(), Some(anchor));
    // Leaving visual mode drops the anchor with the variant.
    modes.enter_normal();
    assert!(!modes.is_visual());
    assert_eq!(modes.visual_anchor(), None);
}

#[test]
fn test_screen_editor_rows() {
    // Two rows of chrome: a status bar and the command line.
    assert_eq!(Screen::editor_rows(24), 22);
    assert_eq!(Screen::editor_rows(2), 0);
    assert_eq!(Screen::editor_rows(1), 0);
    assert_eq!(Screen::editor_rows(0), 0);
}
