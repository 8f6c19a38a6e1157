//! The finite-state mode manager gating which class of key command is legal.
//! All transitions between `Insert`, `Command` and `Visual` pass through
//! `Normal`; the `Visual` variant carries the anchor position captured on
//! entry, so no stale anchor can survive a transition back to `Normal`.
use vstd::prelude::*;

use crate::position::Position;

verus! {

/// The active editing mode. `Visual` carries the selection anchor.
#[derive(Clone, Copy, Debug, PartialEq, Eq, Structural)]
pub enum Mode {
    Normal,
    Command,
    Insert,
    Visual(Position),
}

/// Holds the active mode; it starts in `Normal`.
pub struct ModeManager {
    current: Mode,
}

impl ModeManager {
    /// The active mode, as contracts see it.
    pub closed spec fn spec_current(&self) -> Mode {
        self.current
    }

    pub fn new() -> (r: ModeManager)
        ensures
            r.spec_current() == Mode::Normal,
    {
        ModeManager { current: Mode::Normal }
    }

    pub fn current(&self) -> (r: Mode)
        ensures
            r == self.spec_current(),
    {
        self.current
    }

    pub fn enter_command(&mut self)
        ensures
            final(self).spec_current() == Mode::Command,
    {
        self.current = Mode::Command;
    }

    pub fn enter_normal(&mut self)
        ensures
            final(self).spec_current() == Mode::Normal,
    {
        self.current = Mode::Normal;
    }

    pub fn enter_insert(&mut self)
        ensures
            final(self).spec_current() == Mode::Insert,
    {
        self.current = Mode::Insert;
    }

    /// Enters visual mode, capturing the current cursor position as anchor.
    pub fn enter_visual(&mut self, anchor: Position)
        ensures
            final(self).spec_current() == Mode::Visual(anchor),
    {
        self.current = Mode::Visual(anchor);
    }

    pub fn is_normal(&self) -> (r: bool)
        ensures
            r == (self.spec_current() == Mode::Normal),
    {
        self.current == Mode::Normal
    }

    pub fn is_command(&self) -> (r: bool)
        ensures
            r == (self.spec_current() == Mode::Command),
    {
        self.current == Mode::Command
    }

    pub fn is_insert(&self) -> (r: bool)
        ensures
            r == (self.spec_current() == Mode::Insert),
    {
        self.current == Mode::Insert
    }

    pub fn is_visual(&self) -> (r: bool)
        ensures
            r == (self.spec_current() matches Mode::Visual(_)),
    {
        matches!(self.current, Mode::Visual(_))
    }

    /// The anchor captured on entering visual mode, if that is the active mode.
    pub fn visual_anchor(&self) -> (r: Option<Position>)
        ensures
            match r {
                Some(anchor) => self.spec_current() == Mode::Visual(anchor),
                None => !(self.spec_current() matches Mode::Visual(_)),
            },
    {
        match self.current {
            Mode::Visual(anchor) => Some(anchor),
            _ => None,
        }
    }
}

} // verus!
