//! Screen layout arithmetic: how many terminal rows are left for buffer text
//! once the status bar and command line are accounted for.
use vstd::prelude::*;

use crate::UI_HEIGHT;

verus! {

/// Layout of the editor screen; the drawing itself is external.
pub struct Screen;

impl Screen {
    /// The number of terminal rows available for buffer text: the terminal
    /// height minus the chrome, floored at zero for tiny terminals.
    pub fn editor_rows(rows: u16) -> (r: u16)
        ensures
            r == if rows >= UI_HEIGHT {
                rows - UI_HEIGHT
            } else {
                0int
            },
    {
        if rows >= UI_HEIGHT {
            rows - UI_HEIGHT
        } else {
            0
        }
    }
}

} // verus!
