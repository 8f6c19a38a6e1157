//! Editing core of a modal (vim-style) terminal text editor: a line-oriented
//! text buffer, a cursor model that maps between screen and file coordinates
//! (including scrolling), an edit session with dirty tracking and a yank
//! register, and a mode state machine.
use vstd::prelude::*;

pub mod buffer;
pub mod command;
pub mod cursor;
pub mod editor;
pub mod file_io;
pub mod mode;
pub mod position;
pub mod screen;

verus! {

/// Height of the status bar, in screen rows.
pub const STATUS_BAR_HEIGHT: u16 = 1;
/// Height of the command line, in screen rows.
pub const COMMAND_LINE_HEIGHT: u16 = 1;
/// Screen rows reserved for chrome rather than buffer text.
pub const UI_HEIGHT: u16 = STATUS_BAR_HEIGHT + COMMAND_LINE_HEIGHT;

} // verus!
