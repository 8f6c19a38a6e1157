//! The cursor/viewport model: 1-indexed screen coordinates `(x, y)` plus the
//! scroll offsets, convertible to 0-indexed file coordinates. The file row
//! under the cursor is `row_offset + y - 1`; the column index is `x - 1`.
use vstd::prelude::*;

use crate::position::Position;

verus! {

/// The largest row index the u16 scroll state can address.
pub open spec fn capped_last_row(buffer_len: int) -> int {
    vstd::math::min(buffer_len - 1, u16::MAX as int)
}

/// Screen state `(y, row_offset)` after jumping to the bottom of the buffer:
/// when everything fits on screen no scrolling is needed, otherwise the
/// offset is chosen so that the last row sits on the last editor row.
pub open spec fn bottom_spec(buffer_len: int, editor_rows: int) -> (int, int) {
    if buffer_len == 0 {
        (1, 0)
    } else {
        let last = capped_last_row(buffer_len);
        if last < editor_rows {
            (last + 1, 0)
        } else {
            (editor_rows, last - (editor_rows - 1))
        }
    }
}

/// Screen state `(y, row_offset)` after the scroll pass: a cursor past the
/// end of a shrunken buffer snaps to the last row; a cursor above the
/// viewport scrolls up; one below it scrolls down; `y` is then recomputed
/// from the (unchanged) file row.
pub open spec fn scroll_spec(y: int, row_offset: int, editor_rows: int, buffer_len: int) -> (
    int,
    int,
) {
    if buffer_len == 0 {
        (1, 0)
    } else {
        let file_row = row_offset + y - 1;
        let last = capped_last_row(buffer_len);
        if file_row > last {
            bottom_spec(buffer_len, editor_rows)
        } else {
            let new_offset = if file_row < row_offset {
                file_row
            } else if file_row >= row_offset + editor_rows {
                file_row - (editor_rows - 1)
            } else {
                row_offset
            };
            (file_row - new_offset + 1, new_offset)
        }
    }
}

/// Clamping the screen column to the current line: an empty line forces
/// column 1; otherwise the column is clamped down to the line length
/// (itself capped by the u16 screen range).
pub open spec fn adjust_x_spec(x: int, line_len: int) -> int {
    if line_len == 0 {
        1
    } else {
        vstd::math::min(x, vstd::math::min(line_len, u16::MAX as int))
    }
}

/// 1-indexed screen coordinates plus scroll state.
pub struct Cursor {
    x: u16,
    y: u16,
    row_offset: u16,
    col_offset: u16,
}

impl Cursor {
    #[verifier::type_invariant]
    spec fn screen_coords_positive(self) -> bool {
        self.x >= 1 && self.y >= 1
    }

    /// The screen column, as contracts see it. Always at least 1.
    pub closed spec fn spec_x(&self) -> u16 {
        self.x
    }

    /// The screen row, as contracts see it. Always at least 1.
    pub closed spec fn spec_y(&self) -> u16 {
        self.y
    }

    /// The vertical scroll offset, as contracts see it.
    pub closed spec fn spec_row_offset(&self) -> u16 {
        self.row_offset
    }

    /// The horizontal scroll offset, as contracts see it.
    pub closed spec fn spec_col_offset(&self) -> u16 {
        self.col_offset
    }

    /// The 0-indexed file row under the cursor, as contracts see it.
    pub open spec fn spec_file_row(&self) -> int {
        self.spec_row_offset() + self.spec_y() - 1
    }

    pub fn new() -> (r: Cursor)
        ensures
            r.spec_x() == 1,
            r.spec_y() == 1,
            r.spec_row_offset() == 0,
            r.spec_col_offset() == 0,
    {
        Cursor { x: 1, y: 1, row_offset: 0, col_offset: 0 }
    }

    pub fn x(&self) -> (r: u16)
        ensures
            r == self.spec_x(),
    {
        self.x
    }

    pub fn y(&self) -> (r: u16)
        ensures
            r == self.spec_y(),
    {
        self.y
    }

    pub fn row_offset(&self) -> (r: u16)
        ensures
            r == self.spec_row_offset(),
    {
        self.row_offset
    }

    pub fn col_offset(&self) -> (r: u16)
        ensures
            r == self.spec_col_offset(),
    {
        self.col_offset
    }

    /// Moves one screen row up, stopping at the top of the screen.
    pub fn move_up(&mut self)
        ensures
            final(self).spec_y() == if old(self).spec_y() > 1 {
                old(self).spec_y() - 1
            } else {
                old(self).spec_y() as int
            },
            final(self).spec_x() == old(self).spec_x(),
            final(self).spec_row_offset() == old(self).spec_row_offset(),
            final(self).spec_col_offset() == old(self).spec_col_offset(),
    {
        proof {
            use_type_invariant(&*self);
        }
        if self.y > 1 {
            self.y = self.y - 1;
        }
    }

    /// Moves one screen row down, stopping at the last buffer row and at the
    /// bottom of the screen.
    pub fn move_down(&mut self, max_rows: u16, buffer_len: usize)
        ensures
            final(self).spec_y() == if buffer_len > 0 && old(self).spec_file_row() < buffer_len - 1
                && old(self).spec_y() < max_rows {
                old(self).spec_y() + 1
            } else {
                old(self).spec_y() as int
            },
            final(self).spec_x() == old(self).spec_x(),
            final(self).spec_row_offset() == old(self).spec_row_offset(),
            final(self).spec_col_offset() == old(self).spec_col_offset(),
    {
        proof {
            use_type_invariant(&*self);
        }
        if buffer_len == 0 {
            return ;
        }
        let current_file_row: usize = self.row_offset as usize + self.y as usize - 1;
        let last_row: usize = buffer_len - 1;
        if current_file_row < last_row && self.y < max_rows {
            self.y = self.y + 1;
        }
    }

    /// Moves one screen column left, stopping at column 1.
    pub fn move_left(&mut self)
        ensures
            final(self).spec_x() == if old(self).spec_x() > 1 {
                old(self).spec_x() - 1
            } else {
                old(self).spec_x() as int
            },
            final(self).spec_y() == old(self).spec_y(),
            final(self).spec_row_offset() == old(self).spec_row_offset(),
            final(self).spec_col_offset() == old(self).spec_col_offset(),
    {
        proof {
            use_type_invariant(&*self);
        }
        if self.x > 1 {
            self.x = self.x - 1;
        }
    }

    /// Moves one screen column right, stopping at the last character of the
    /// line (normal-mode rule) and at the right edge of the screen.
    pub fn move_right(&mut self, max_cols: u16, line_len: usize)
        ensures
            final(self).spec_x() == if line_len > 0 && old(self).spec_x() < vstd::math::min(
                line_len as int,
                max_cols as int,
            ) {
                old(self).spec_x() + 1
            } else {
                old(self).spec_x() as int
            },
            final(self).spec_y() == old(self).spec_y(),
            final(self).spec_row_offset() == old(self).spec_row_offset(),
            final(self).spec_col_offset() == old(self).spec_col_offset(),
    {
        proof {
            use_type_invariant(&*self);
        }
        if line_len == 0 {
            return ;
        }
        let max_x: usize = if line_len < max_cols as usize {
            line_len
        } else {
            max_cols as usize
        };
        if (self.x as usize) < max_x {
            self.x = self.x + 1;
        }
    }

    pub fn move_to_line_start(&mut self)
        ensures
            final(self).spec_x() == 1,
            final(self).spec_y() == old(self).spec_y(),
            final(self).spec_row_offset() == old(self).spec_row_offset(),
            final(self).spec_col_offset() == old(self).spec_col_offset(),
    {
        proof {
            use_type_invariant(&*self);
        }
        self.x = 1;
    }

    /// Moves to the last character of the line; an empty line means column 1.
    pub fn move_to_line_end(&mut self, line_len: u16)
        ensures
            final(self).spec_x() == if line_len == 0 {
                1int
            } else {
                line_len as int
            },
            final(self).spec_y() == old(self).spec_y(),
            final(self).spec_row_offset() == old(self).spec_row_offset(),
            final(self).spec_col_offset() == old(self).spec_col_offset(),
    {
        proof {
            use_type_invariant(&*self);
        }
        if line_len == 0 {
            self.x = 1;
        } else {
            self.x = line_len;
        }
    }

    /// Moves to the first file row, scrolled fully up.
    pub fn move_to_top(&mut self)
        ensures
            final(self).spec_y() == 1,
            final(self).spec_row_offset() == 0,
            final(self).spec_x() == old(self).spec_x(),
            final(self).spec_col_offset() == old(self).spec_col_offset(),
    {
        proof {
            use_type_invariant(&*self);
        }
        self.y = 1;
        self.row_offset = 0;
    }

    /// Moves to the last file row, scrolling if the buffer does not fit on
    /// the screen.
    pub fn move_to_bottom(&mut self, buffer_len: usize, editor_rows: u16)
        requires
            editor_rows >= 1,
        ensures
            final(self).spec_y() as int == bottom_spec(buffer_len as int, editor_rows as int).0,
            final(self).spec_row_offset() as int == bottom_spec(
                buffer_len as int,
                editor_rows as int,
            ).1,
            final(self).spec_x() == old(self).spec_x(),
            final(self).spec_col_offset() == old(self).spec_col_offset(),
    {
        proof {
            use_type_invariant(&*self);
        }
        if buffer_len == 0 {
            self.y = 1;
            self.row_offset = 0;
            return ;
        }
        let last_line: usize = if buffer_len - 1 < u16::MAX as usize {
            buffer_len - 1
        } else {
            u16::MAX as usize
        };
        if last_line < editor_rows as usize {
            self.y = (last_line + 1) as u16;
            self.row_offset = 0;
        } else {
            self.row_offset = (last_line - (editor_rows as usize - 1)) as u16;
            self.y = editor_rows;
        }
    }

    /// Clamps the screen column down so the cursor never dangles past the
    /// end of a shorter line; called after any vertical move.
    pub fn adjust_cursor_x(&mut self, line_len: usize)
        ensures
            final(self).spec_x() as int == adjust_x_spec(old(self).spec_x() as int, line_len as int),
            final(self).spec_y() == old(self).spec_y(),
            final(self).spec_row_offset() == old(self).spec_row_offset(),
            final(self).spec_col_offset() == old(self).spec_col_offset(),
    {
        proof {
            use_type_invariant(&*self);
        }
        if line_len == 0 {
            self.x = 1;
        } else {
            let max_x: usize = if line_len < u16::MAX as usize {
                line_len
            } else {
                u16::MAX as usize
            };
            if self.x as usize > max_x {
                self.x = max_x as u16;
            }
        }
    }

    /// The invariant-restoring scroll pass, run after every cursor-affecting
    /// command. Idempotent: see `lemma_scroll_idempotent`.
    pub fn scroll(&mut self, editor_rows: u16, buffer_len: usize)
        requires
            editor_rows >= 1,
        ensures
            final(self).spec_y() as int == scroll_spec(
                old(self).spec_y() as int,
                old(self).spec_row_offset() as int,
                editor_rows as int,
                buffer_len as int,
            ).0,
            final(self).spec_row_offset() as int == scroll_spec(
                old(self).spec_y() as int,
                old(self).spec_row_offset() as int,
                editor_rows as int,
                buffer_len as int,
            ).1,
            final(self).spec_x() == old(self).spec_x(),
            final(self).spec_col_offset() == old(self).spec_col_offset(),
    {
        proof {
            use_type_invariant(&*self);
        }
        if buffer_len == 0 {
            self.y = 1;
            self.row_offset = 0;
            return ;
        }
        let file_row: usize = self.row_offset as usize + self.y as usize - 1;
        let last_row: usize = if buffer_len - 1 < u16::MAX as usize {
            buffer_len - 1
        } else {
            u16::MAX as usize
        };
        if file_row > last_row {
            self.move_to_bottom(buffer_len, editor_rows);
            return ;
        }
        if file_row < self.row_offset as usize {
            self.row_offset = file_row as u16;
        }
        if file_row >= self.row_offset as usize + editor_rows as usize {
            self.row_offset = (file_row - (editor_rows as usize - 1)) as u16;
        }
        self.y = (file_row - self.row_offset as usize + 1) as u16;
    }

    /// The composite recovery pass run after structural edits: if the cursor
    /// row vanished it moves to the bottom, then the column is clamped. An
    /// empty buffer always resets the state to `(x=1, y=1, row_offset=0)`.
    pub fn ensure_within_bounds(&mut self, buffer_len: usize, line_len: usize, editor_rows: u16)
        requires
            editor_rows >= 1,
        ensures
            buffer_len == 0 ==> final(self).spec_x() == 1 && final(self).spec_y() == 1
                && final(self).spec_row_offset() == 0,
            buffer_len > 0 ==> ({
                let moved = if old(self).spec_file_row() >= buffer_len {
                    bottom_spec(buffer_len as int, editor_rows as int)
                } else {
                    (old(self).spec_y() as int, old(self).spec_row_offset() as int)
                };
                final(self).spec_y() as int == moved.0 && final(self).spec_row_offset() as int
                    == moved.1 && final(self).spec_x() as int == adjust_x_spec(
                    old(self).spec_x() as int,
                    line_len as int,
                )
            }),
            final(self).spec_col_offset() == old(self).spec_col_offset(),
    {
        proof {
            use_type_invariant(&*self);
        }
        if buffer_len == 0 {
            self.x = 1;
            self.y = 1;
            self.row_offset = 0;
            return ;
        }
        if self.file_row() >= buffer_len {
            self.move_to_bottom(buffer_len, editor_rows);
        }
        self.adjust_cursor_x(line_len);
    }

    /// The 0-indexed file row under the cursor.
    pub fn file_row(&self) -> (r: usize)
        ensures
            r == self.spec_file_row(),
    {
        proof {
            use_type_invariant(&*self);
        }
        self.row_offset as usize + self.y as usize - 1
    }

    /// The canonical 0-indexed buffer coordinate under the cursor.
    pub fn position(&self) -> (r: Position)
        ensures
            r.row == self.spec_file_row(),
            r.col == self.spec_x() - 1,
    {
        proof {
            use_type_invariant(&*self);
        }
        Position { row: self.row_offset as usize + self.y as usize - 1, col: self.x as usize - 1 }
    }

    /// The 1-indexed display column of the cursor. Every character renders
    /// one column wide today, so this equals the screen column.
    pub fn render_x(&self) -> (r: u16)
        ensures
            r == self.spec_x(),
    {
        self.x
    }
}

/// The scroll pass is idempotent: running it again, with no move in between,
/// changes neither the screen row nor the scroll offset.
pub proof fn lemma_scroll_idempotent(y: int, row_offset: int, editor_rows: int, buffer_len: int)
    requires
        y >= 1,
        row_offset >= 0,
        editor_rows >= 1,
        buffer_len >= 0,
    ensures
        ({
            let once = scroll_spec(y, row_offset, editor_rows, buffer_len);
            scroll_spec(once.0, once.1, editor_rows, buffer_len) == once
        }),
{
}

} // verus!
