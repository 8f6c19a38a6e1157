//! The edit session: buffer mutations with dirty tracking, the single-slot
//! yank register, pasting, ranged (visual-mode) operations, and the handoff
//! to the persistence codec. The register is mirrored to the OS clipboard on
//! a best-effort basis; clipboard failures never reach the editing core.
use vstd::prelude::*;

use crate::buffer::Buffer;
use crate::buffer::append_range;
use crate::buffer::copy_chars;
use crate::buffer::copy_range;
use crate::buffer::line_delete_char;
use crate::buffer::line_insert_str;
use crate::buffer::rows_delete_char;
use crate::buffer::rows_delete_row;
use crate::buffer::rows_insert_char;
use crate::buffer::rows_insert_newline;
use crate::buffer::rows_insert_row;
use crate::buffer::rows_insert_str;
use crate::buffer::rows_join;
use crate::file_io::FileIO;
use crate::position::Position;
use crate::position::normalize_range;
use crate::position::spec_normalize;
use crate::file_io::decode_flag;
use crate::file_io::decode_rows;
use crate::file_io::encode_text;
use crate::file_io::join_lines;
use crate::file_io::lemma_join_push;

verus! {

/// Where a paste lands relative to the cursor: `p` pastes below/after,
/// `P` pastes above/at.
pub enum PasteDirection {
    Below,
    Above,
}

/// What a paste did: nothing (empty register), an in-line splice, or whole
/// lines above or below the cursor row.
pub enum PasteResult {
    Empty,
    InLine,
    Above,
    Below,
}

/// Errors of the edit session that are no I/O failures.
#[derive(Debug)]
pub enum EditorError {
    /// The session has no file name to save to or reload from.
    NoFilename,
}

enum YankType {
    InLine,
    NewLine,
}

/// The single-slot yank register: either one in-line fragment or one or more
/// whole lines. Every yank or delete overwrites it; nothing appends.
pub struct YankManager {
    buffer: Vec<Vec<char>>,
    yank_type: YankType,
}

impl YankManager {
    /// The stored payload, one sequence per line.
    pub closed spec fn spec_content(&self) -> Seq<Seq<char>> {
        self.buffer@.map_values(|v: Vec<char>| v@)
    }

    /// Whether the payload is whole lines rather than an in-line fragment.
    pub closed spec fn spec_is_newline(&self) -> bool {
        self.yank_type is NewLine
    }

    pub fn new() -> (r: YankManager)
        ensures
            r.spec_content() == Seq::<Seq<char>>::empty(),
            !r.spec_is_newline(),
    {
        let r = YankManager { buffer: Vec::new(), yank_type: YankType::InLine };
        proof {
            assert(r.spec_content() =~~= Seq::<Seq<char>>::empty());
        }
        r
    }

    /// Overwrites the register with one in-line fragment.
    pub fn yank_inline(&mut self, text: Vec<char>)
        ensures
            final(self).spec_content() == seq![text@],
            !final(self).spec_is_newline(),
    {
        let mut buffer: Vec<Vec<char>> = Vec::new();
        buffer.push(text);
        *self = YankManager { buffer, yank_type: YankType::InLine };
        proof {
            assert(self.spec_content() =~~= seq![text@]);
        }
    }

    /// Overwrites the register with one whole line.
    pub fn yank_line(&mut self, text: Vec<char>)
        ensures
            final(self).spec_content() == seq![text@],
            final(self).spec_is_newline(),
    {
        let mut buffer: Vec<Vec<char>> = Vec::new();
        buffer.push(text);
        *self = YankManager { buffer, yank_type: YankType::NewLine };
        proof {
            assert(self.spec_content() =~~= seq![text@]);
        }
    }

    /// Overwrites the register with whole lines.
    pub fn yank_lines(&mut self, lines: Vec<Vec<char>>)
        ensures
            final(self).spec_content() == lines@.map_values(|v: Vec<char>| v@),
            final(self).spec_is_newline(),
    {
        *self = YankManager { buffer: lines, yank_type: YankType::NewLine };
    }

    pub fn is_newline_yank(&self) -> (r: bool)
        ensures
            r == self.spec_is_newline(),
    {
        matches!(self.yank_type, YankType::NewLine)
    }

    pub fn is_empty(&self) -> (r: bool)
        ensures
            r == (self.spec_content().len() == 0),
    {
        self.buffer.is_empty()
    }

    pub fn content(&self) -> (r: &Vec<Vec<char>>)
        ensures
            r@.len() == self.spec_content().len(),
            forall|i: int| 0 <= i < r@.len() ==> r@[i]@ == self.spec_content()[i],
    {
        &self.buffer
    }

    /// The register lines joined by newlines, as handed to the clipboard.
    pub fn joined(&self) -> (r: Vec<char>)
        ensures
            r@ == join_lines(self.spec_content()),
    {
        let mut out: Vec<char> = Vec::new();
        let n = self.buffer.len();
        let mut i: usize = 0;
        while i < n
            invariant
                i <= n == self.spec_content().len(),
                self.buffer@.len() == n,
                forall|j: int| 0 <= j < n ==> self.buffer@[j]@ == self.spec_content()[j],
                out@ == join_lines(self.spec_content().take(i as int)),
            decreases n - i,
        {
            if i > 0 {
                out.push('\n');
            }
            let line = &self.buffer[i];
            append_range(&mut out, line, 0, line.len());
            proof {
                let content = self.spec_content();
                lemma_join_push(content.take(i as int), content[i as int]);
                assert(content.take(i as int).push(content[i as int]) =~~= content.take(i + 1));
                assert(line@.subrange(0, line@.len() as int) =~= line@);
                assert(out@ == join_lines(content.take(i + 1)));
            }
            i = i + 1;
        }
        proof {
            assert(self.spec_content().take(n as int) =~~= self.spec_content());
        }
        out
    }
}

#[verifier::external_type_specification]
#[verifier::external_body]
pub struct ExClipboard(arboard::Clipboard);

/// Relies on arboard::Clipboard::new: opens a handle to the OS clipboard, or
/// fails where the platform offers none. Nothing can be promised of the OS.
#[verifier::external_body]
fn clipboard_new() -> Option<arboard::Clipboard> {
    arboard::Clipboard::new().ok()
}

/// Relies on arboard::Clipboard::set_text: places the text on the OS
/// clipboard, reporting failure as `false`. Nothing is promised of the OS
/// state, so no caller may depend on the outcome.
#[verifier::external_body]
fn clipboard_set_text(clipboard: &mut arboard::Clipboard, text: &Vec<char>) -> bool {
    let s: String = text.iter().collect();
    clipboard.set_text(s).is_ok()
}

/// Sequentially inserting `lines` starting at `at`, each one row further
/// down; inserts past the end of the buffer are silently ignored.
pub open spec fn rows_insert_all(bv: Seq<Seq<char>>, at: int, lines: Seq<Seq<char>>) -> Seq<
    Seq<char>,
>
    decreases lines.len(),
{
    if lines.len() == 0 {
        bv
    } else {
        rows_insert_all(rows_insert_row(bv, at, lines[0]), at + 1, lines.skip(1))
    }
}

/// Inserting starting past one slot beyond the end never changes the buffer.
pub proof fn lemma_insert_all_out_of_range(bv: Seq<Seq<char>>, at: int, lines: Seq<Seq<char>>)
    requires
        at > bv.len(),
    ensures
        rows_insert_all(bv, at, lines) == bv,
    decreases lines.len(),
{
    if lines.len() > 0 {
        assert(rows_insert_row(bv, at, lines[0]) == bv);
        lemma_insert_all_out_of_range(bv, at + 1, lines.skip(1));
    }
}

/// Inserting lines one after another at an in-range position is one splice.
pub proof fn lemma_insert_all_in_range(bv: Seq<Seq<char>>, at: int, lines: Seq<Seq<char>>)
    requires
        0 <= at <= bv.len(),
    ensures
        rows_insert_all(bv, at, lines) == bv.take(at) + lines + bv.skip(at),
    decreases lines.len(),
{
    if lines.len() == 0 {
        assert(bv.take(at) + lines + bv.skip(at) =~~= bv);
    } else {
        let bv2 = rows_insert_row(bv, at, lines[0]);
        assert(bv2 == bv.insert(at, lines[0]));
        lemma_insert_all_in_range(bv2, at + 1, lines.skip(1));
        assert(bv2.take(at + 1) =~~= bv.take(at).push(lines[0]));
        assert(bv2.skip(at + 1) =~~= bv.skip(at));
        assert(bv.take(at).push(lines[0]) + lines.skip(1) + bv.skip(at) =~~= bv.take(at) + lines
            + bv.skip(at));
    }
}

/// The end position of a selection, clamped into the buffer: an end row past
/// the last row becomes the last row selected to its end.
pub open spec fn clamp_range_end(bv: Seq<Seq<char>>, erow: int, ecol: int) -> (int, int) {
    if erow < bv.len() {
        (erow, ecol)
    } else {
        (bv.len() - 1, bv[bv.len() - 1].len() as int)
    }
}

/// The lines a normalized range selects, end column inclusive, columns
/// clamped into each row: `[scol, ecol]` of the one row, or `[scol, end]` of
/// the first row, every interior row whole, and `[0, ecol]` of the last row.
pub open spec fn extract_range(bv: Seq<Seq<char>>, srow: int, scol: int, erow: int, ecol: int) -> Seq<
    Seq<char>,
> {
    if srow == erow {
        let len = bv[srow].len() as int;
        seq![bv[srow].subrange(vstd::math::min(scol, len), vstd::math::min(ecol + 1, len))]
    } else {
        let first = bv[srow].skip(vstd::math::min(scol, bv[srow].len() as int));
        let last = bv[erow].take(vstd::math::min(ecol + 1, bv[erow].len() as int));
        seq![first] + bv.subrange(srow + 1, erow) + seq![last]
    }
}

/// The buffer after removing a normalized range: one row loses its selected
/// middle; a multi-row selection leaves the first row's retained prefix
/// joined with the last row's retained suffix.
pub open spec fn remove_range(bv: Seq<Seq<char>>, srow: int, scol: int, erow: int, ecol: int) -> Seq<
    Seq<char>,
> {
    if srow == erow {
        let len = bv[srow].len() as int;
        bv.update(
            srow,
            bv[srow].take(vstd::math::min(scol, len)) + bv[srow].skip(
                vstd::math::min(ecol + 1, len),
            ),
        )
    } else {
        let joined = bv[srow].take(vstd::math::min(scol, bv[srow].len() as int)) + bv[erow].skip(
            vstd::math::min(ecol + 1, bv[erow].len() as int),
        );
        bv.take(srow).push(joined) + bv.skip(erow + 1)
    }
}

/// Whether a selection touches the buffer at all: it does unless the buffer
/// is empty or the whole selection lies past the last row.
pub open spec fn range_applies(bv: Seq<Seq<char>>, start: Position, end: Position) -> bool {
    bv.len() > 0 && spec_normalize(start, end).0.row < bv.len()
}

/// What a range yank stores: the extraction of the normalized, clamped range.
pub open spec fn range_yank_lines(bv: Seq<Seq<char>>, start: Position, end: Position) -> Seq<
    Seq<char>,
> {
    let norm = spec_normalize(start, end);
    let ce = clamp_range_end(bv, norm.1.row as int, norm.1.col as int);
    extract_range(bv, norm.0.row as int, norm.0.col as int, ce.0, ce.1)
}

/// What a range delete leaves: the buffer with the normalized, clamped range
/// removed.
pub open spec fn range_removed(bv: Seq<Seq<char>>, start: Position, end: Position) -> Seq<
    Seq<char>,
> {
    let norm = spec_normalize(start, end);
    let ce = clamp_range_end(bv, norm.1.row as int, norm.1.col as int);
    remove_range(bv, norm.0.row as int, norm.0.col as int, ce.0, ce.1)
}

/// The column an in-line paste lands at: just after the cursor for a paste
/// below (`p`), at the cursor for a paste above (`P`), clamped to the row end.
pub open spec fn inline_paste_col(col: int, line_len: int, below: bool) -> int {
    if below {
        vstd::math::min(col + 1, line_len)
    } else {
        vstd::math::min(col, line_len)
    }
}

/// The edit session: the buffer plus dirty flag, file name, preserved
/// trailing-newline flag, yank register and the best-effort clipboard handle.
pub struct Editor {
    buffer: Buffer,
    filename: Option<String>,
    dirty: bool,
    yank_manager: YankManager,
    clipboard: Option<arboard::Clipboard>,
    trailing_newline: bool,
}

impl Editor {
    /// The buffer rows, as contracts see them.
    pub closed spec fn buffer_view(&self) -> Seq<Seq<char>> {
        self.buffer@
    }

    /// Whether unsaved changes exist, as contracts see it.
    pub closed spec fn spec_dirty(&self) -> bool {
        self.dirty
    }

    /// The file name, as contracts see it.
    pub closed spec fn spec_filename(&self) -> Option<Seq<char>> {
        match self.filename {
            Some(ref s) => Some(s@),
            None => None,
        }
    }

    /// The yank register payload, as contracts see it.
    pub closed spec fn yank_view(&self) -> Seq<Seq<char>> {
        self.yank_manager.spec_content()
    }

    /// Whether the register holds whole lines, as contracts see it.
    pub closed spec fn yank_is_newline(&self) -> bool {
        self.yank_manager.spec_is_newline()
    }

    /// The preserved trailing-newline flag, as contracts see it.
    pub closed spec fn spec_trailing_newline(&self) -> bool {
        self.trailing_newline
    }

    pub fn new() -> (r: Editor)
        ensures
            r.buffer_view() == Seq::<Seq<char>>::empty(),
            !r.spec_dirty(),
            r.spec_filename() is None,
            r.yank_view().len() == 0,
            !r.yank_is_newline(),
            !r.spec_trailing_newline(),
    {
        Editor {
            buffer: Buffer::new(),
            filename: None,
            dirty: false,
            yank_manager: YankManager::new(),
            clipboard: clipboard_new(),
            trailing_newline: false,
        }
    }

    /// Wraps an existing buffer, e.g. one just decoded from a file.
    pub fn from_buffer(buffer: Buffer, filename: Option<String>, trailing_newline: bool) -> (r:
        Editor)
        ensures
            r.buffer_view() == buffer@,
            !r.spec_dirty(),
            r.spec_filename() == match filename {
                Some(s) => Some::<Seq<char>>(s@),
                None => None::<Seq<char>>,
            },
            r.yank_view().len() == 0,
            !r.yank_is_newline(),
            r.spec_trailing_newline() == trailing_newline,
    {
        Editor {
            buffer,
            filename,
            dirty: false,
            yank_manager: YankManager::new(),
            clipboard: clipboard_new(),
            trailing_newline,
        }
    }

    /// Replaces the buffer with the decoded content of a newly opened file.
    /// The yank register deliberately survives, so yank and paste work across
    /// file switches.
    pub fn open_file(&mut self, filename: String, text: &Vec<char>)
        ensures
            final(self).buffer_view() == decode_rows(text@),
            final(self).spec_trailing_newline() == decode_flag(text@),
            final(self).spec_filename() == Some(filename@),
            !final(self).spec_dirty(),
            final(self).yank_view() == old(self).yank_view(),
            final(self).yank_is_newline() == old(self).yank_is_newline(),
    {
        let (buffer, trailing) = FileIO::decode(text);
        self.buffer = buffer;
        self.filename = Some(filename);
        self.trailing_newline = trailing;
        self.dirty = false;
    }

    /// Replaces the buffer with freshly decoded content of the current file.
    /// The caller is responsible for reading the file named by `filename()`.
    pub fn reload(&mut self, text: &Vec<char>)
        ensures
            final(self).buffer_view() == decode_rows(text@),
            final(self).spec_trailing_newline() == decode_flag(text@),
            final(self).spec_filename() == old(self).spec_filename(),
            !final(self).spec_dirty(),
            final(self).yank_view() == old(self).yank_view(),
            final(self).yank_is_newline() == old(self).yank_is_newline(),
    {
        let (buffer, trailing) = FileIO::decode(text);
        self.buffer = buffer;
        self.trailing_newline = trailing;
        self.dirty = false;
    }

    /// Encodes the buffer for saving, with the preserved trailing-newline
    /// flag, or reports that the session has no file name.
    pub fn save_content(&self) -> (r: Result<Vec<char>, EditorError>)
        ensures
            match r {
                Ok(text) => self.spec_filename() is Some && text@ == encode_text(
                    self.buffer_view(),
                    self.spec_trailing_newline(),
                ),
                Err(e) => self.spec_filename() is None && e is NoFilename,
            },
    {
        match &self.filename {
            Some(_) => Ok(FileIO::encode(&self.buffer, self.trailing_newline)),
            None => Err(EditorError::NoFilename),
        }
    }

    /// Clears the dirty flag; to be called after the encoded content was
    /// successfully persisted.
    pub fn mark_saved(&mut self)
        ensures
            !final(self).spec_dirty(),
            final(self).buffer_view() == old(self).buffer_view(),
            final(self).spec_filename() == old(self).spec_filename(),
            final(self).yank_view() == old(self).yank_view(),
            final(self).yank_is_newline() == old(self).yank_is_newline(),
            final(self).spec_trailing_newline() == old(self).spec_trailing_newline(),
    {
        self.dirty = false;
    }

    /// Mirrors the register to the OS clipboard, joining lines by newlines.
    /// Best-effort: failures are swallowed and the session state is untouched.
    pub fn sync_to_clipboard(&mut self)
        ensures
            final(self).buffer_view() == old(self).buffer_view(),
            final(self).spec_dirty() == old(self).spec_dirty(),
            final(self).spec_filename() == old(self).spec_filename(),
            final(self).yank_view() == old(self).yank_view(),
            final(self).yank_is_newline() == old(self).yank_is_newline(),
            final(self).spec_trailing_newline() == old(self).spec_trailing_newline(),
    {
        if self.yank_manager.is_empty() {
            return ;
        }
        let text = self.yank_manager.joined();
        match self.clipboard.as_mut() {
            Some(clipboard) => {
                let _ = clipboard_set_text(clipboard, &text);
            },
            None => {},
        }
    }

    pub fn buffer(&self) -> (r: &Buffer)
        ensures
            r@ == self.buffer_view(),
    {
        &self.buffer
    }

    /// Direct mutable access to the buffer; does not touch the dirty flag.
    pub fn buffer_mut(&mut self) -> (r: &mut Buffer)
        ensures
            (*r)@ == old(self).buffer_view(),
            final(self).buffer_view() == final(r)@,
            final(self).spec_dirty() == old(self).spec_dirty(),
            final(self).spec_filename() == old(self).spec_filename(),
            final(self).yank_view() == old(self).yank_view(),
            final(self).yank_is_newline() == old(self).yank_is_newline(),
            final(self).spec_trailing_newline() == old(self).spec_trailing_newline(),
    {
        &mut self.buffer
    }

    /// Read access to the yank register.
    pub fn yank(&self) -> (r: &YankManager)
        ensures
            r.spec_content() == self.yank_view(),
            r.spec_is_newline() == self.yank_is_newline(),
    {
        &self.yank_manager
    }

    /// Direct mutable access to the yank register; the buffer, dirty flag and
    /// the rest of the session are untouched.
    pub fn yank_mut(&mut self) -> (r: &mut YankManager)
        ensures
            (*r).spec_content() == old(self).yank_view(),
            (*r).spec_is_newline() == old(self).yank_is_newline(),
            final(self).yank_view() == final(r).spec_content(),
            final(self).yank_is_newline() == final(r).spec_is_newline(),
            final(self).buffer_view() == old(self).buffer_view(),
            final(self).spec_dirty() == old(self).spec_dirty(),
            final(self).spec_filename() == old(self).spec_filename(),
            final(self).spec_trailing_newline() == old(self).spec_trailing_newline(),
    {
        &mut self.yank_manager
    }

    /// The buffer length and the length of the row nearest to `row`: the
    /// lengths the cursor needs for re-clamping after an edit.
    pub fn buffer_info(&self, row: usize) -> (r: (usize, usize))
        ensures
            r.0 == self.buffer_view().len(),
            r.1 == if self.buffer_view().len() > 0 {
                self.buffer_view()[vstd::math::min(
                    row as int,
                    self.buffer_view().len() - 1,
                )].len() as int
            } else {
                0int
            },
    {
        let buffer_len = self.buffer.len();
        let line_len = if buffer_len > 0 {
            let at = if row < buffer_len - 1 {
                row
            } else {
                buffer_len - 1
            };
            match self.buffer.row(at) {
                Some(r) => r.len(),
                None => 0,
            }
        } else {
            0
        };
        (buffer_len, line_len)
    }

    /// The length of the row at `row`, or zero if there is no such row.
    pub fn current_line_len(&self, row: usize) -> (r: usize)
        ensures
            r == if row < self.buffer_view().len() {
                self.buffer_view()[row as int].len() as int
            } else {
                0int
            },
    {
        match self.buffer.row(row) {
            Some(r) => r.len(),
            None => 0,
        }
    }

    pub fn filename(&self) -> (r: Option<&str>)
        ensures
            match r {
                Some(name) => self.spec_filename() == Some(name@),
                None => self.spec_filename() is None,
            },
    {
        match &self.filename {
            Some(name) => Some(name.as_str()),
            None => None,
        }
    }

    pub fn is_dirty(&self) -> (r: bool)
        ensures
            r == self.spec_dirty(),
    {
        self.dirty
    }

    /// Inserts a character and marks the session dirty.
    pub fn insert_char(&mut self, row: usize, col: usize, ch: char)
        ensures
            final(self).buffer_view() == rows_insert_char(
                old(self).buffer_view(),
                row as int,
                col as int,
                ch,
            ),
            final(self).spec_dirty(),
            final(self).spec_filename() == old(self).spec_filename(),
            final(self).yank_view() == old(self).yank_view(),
            final(self).yank_is_newline() == old(self).yank_is_newline(),
            final(self).spec_trailing_newline() == old(self).spec_trailing_newline(),
    {
        self.buffer.insert_char(row, col, ch);
        self.dirty = true;
    }

    /// Deletes a character and marks the session dirty.
    pub fn delete_char(&mut self, row: usize, col: usize)
        ensures
            final(self).buffer_view() == rows_delete_char(
                old(self).buffer_view(),
                row as int,
                col as int,
            ),
            final(self).spec_dirty(),
            final(self).spec_filename() == old(self).spec_filename(),
            final(self).yank_view() == old(self).yank_view(),
            final(self).yank_is_newline() == old(self).yank_is_newline(),
            final(self).spec_trailing_newline() == old(self).spec_trailing_newline(),
    {
        let _ = self.buffer.delete_char(row, col);
        self.dirty = true;
    }

    /// Splits the row at the cursor and marks the session dirty.
    pub fn insert_newline(&mut self, row: usize, col: usize)
        ensures
            final(self).buffer_view() == rows_insert_newline(
                old(self).buffer_view(),
                row as int,
                col as int,
            ),
            final(self).spec_dirty(),
            final(self).spec_filename() == old(self).spec_filename(),
            final(self).yank_view() == old(self).yank_view(),
            final(self).yank_is_newline() == old(self).yank_is_newline(),
            final(self).spec_trailing_newline() == old(self).spec_trailing_newline(),
    {
        self.buffer.insert_newline(row, col);
        self.dirty = true;
    }

    /// Merges a row into the one above it and marks the session dirty.
    pub fn join_rows(&mut self, row: usize)
        ensures
            final(self).buffer_view() == rows_join(old(self).buffer_view(), row as int),
            final(self).spec_dirty(),
            final(self).spec_filename() == old(self).spec_filename(),
            final(self).yank_view() == old(self).yank_view(),
            final(self).yank_is_newline() == old(self).yank_is_newline(),
            final(self).spec_trailing_newline() == old(self).spec_trailing_newline(),
    {
        self.buffer.join_rows(row);
        self.dirty = true;
    }

    /// Deletes the character under the cursor (`x`): succeeds only when the
    /// column is within the line; the character lands in the register as an
    /// in-line yank and is mirrored to the clipboard.
    pub fn delete_char_at_cursor(&mut self, row: usize, col: usize) -> (r: bool)
        ensures
            r == (row < old(self).buffer_view().len() && col < old(self).buffer_view()[
                row as int].len()),
            r ==> final(self).buffer_view() == rows_delete_char(
                old(self).buffer_view(),
                row as int,
                col as int,
            ) && final(self).yank_view() == seq![seq![old(self).buffer_view()[row as int][col as int]]]
                && !final(self).yank_is_newline() && final(self).spec_dirty(),
            !r ==> final(self).buffer_view() == old(self).buffer_view() && final(self).yank_view()
                == old(self).yank_view() && final(self).yank_is_newline() == old(self).yank_is_newline() && final(self).spec_dirty() == old(self).spec_dirty(),
            final(self).spec_filename() == old(self).spec_filename(),
            final(self).spec_trailing_newline() == old(self).spec_trailing_newline(),
    {
        let line_len = match self.buffer.row(row) {
            Some(line) => line.len(),
            None => {
                return false;
            },
        };
        if col < line_len {
            match self.buffer.delete_char(row, col) {
                Some(ch) => {
                    let mut text: Vec<char> = Vec::new();
                    text.push(ch);
                    proof {
                        assert(text@ =~= seq![old(self).buffer_view()[row as int][col as int]]);
                    }
                    self.yank_manager.yank_inline(text);
                    self.sync_to_clipboard();
                },
                None => {},
            }
            self.dirty = true;
            true
        } else {
            false
        }
    }

    /// Deletes a whole row (`dd`), capturing it in the register as a line
    /// yank, mirroring it to the clipboard and marking the session dirty.
    pub fn delete_line(&mut self, row: usize) -> (r: bool)
        ensures
            r == (row < old(self).buffer_view().len()),
            r ==> final(self).buffer_view() == rows_delete_row(old(self).buffer_view(), row as int)
                && final(self).yank_view() == seq![old(self).buffer_view()[row as int]] && final(self).yank_is_newline() && final(self).spec_dirty(),
            !r ==> final(self).buffer_view() == old(self).buffer_view() && final(self).yank_view()
                == old(self).yank_view() && final(self).yank_is_newline() == old(self).yank_is_newline() && final(self).spec_dirty() == old(self).spec_dirty(),
            final(self).spec_filename() == old(self).spec_filename(),
            final(self).spec_trailing_newline() == old(self).spec_trailing_newline(),
    {
        match self.buffer.delete_row_with_content(row) {
            Some(content) => {
                self.yank_manager.yank_line(content);
                self.sync_to_clipboard();
                self.dirty = true;
                true
            },
            None => false,
        }
    }

    /// Copies a whole row (`yy`) into the register as a line yank and mirrors
    /// it to the clipboard. A pure copy: the session does not become dirty.
    pub fn yank_line(&mut self, row: usize) -> (r: bool)
        ensures
            r == (row < old(self).buffer_view().len()),
            r ==> final(self).yank_view() == seq![old(self).buffer_view()[row as int]] && final(self).yank_is_newline(),
            !r ==> final(self).yank_view() == old(self).yank_view() && final(self).yank_is_newline()
                == old(self).yank_is_newline(),
            final(self).buffer_view() == old(self).buffer_view(),
            final(self).spec_dirty() == old(self).spec_dirty(),
            final(self).spec_filename() == old(self).spec_filename(),
            final(self).spec_trailing_newline() == old(self).spec_trailing_newline(),
    {
        match self.buffer.get_row_content(row) {
            Some(content) => {
                self.yank_manager.yank_line(content);
                self.sync_to_clipboard();
                true
            },
            None => false,
        }
    }

    /// Pastes the register at the cursor. Whole-line payloads become new rows
    /// below (`p`) or above (`P`) the cursor row, in register order; an
    /// in-line fragment is spliced into the cursor row just after (`p`) or at
    /// (`P`) the cursor column, clamped to the row end. An empty register and
    /// an in-line paste into a nonexistent row do nothing.
    pub fn paste(&mut self, row: usize, col: usize, direction: PasteDirection) -> (r: PasteResult)
        ensures
            final(self).spec_filename() == old(self).spec_filename(),
            final(self).spec_trailing_newline() == old(self).spec_trailing_newline(),
            final(self).yank_view() == old(self).yank_view(),
            final(self).yank_is_newline() == old(self).yank_is_newline(),
            old(self).yank_view().len() == 0 ==> r is Empty && final(self).buffer_view() == old(self).buffer_view() && final(self).spec_dirty() == old(self).spec_dirty(),
            old(self).yank_view().len() > 0 && old(self).yank_is_newline() ==> ({
                let at = if direction is Below {
                    row + 1
                } else {
                    row as int
                };
                final(self).buffer_view() == rows_insert_all(
                    old(self).buffer_view(),
                    at,
                    old(self).yank_view(),
                ) && final(self).spec_dirty() && r == (if direction is Below {
                    PasteResult::Below
                } else {
                    PasteResult::Above
                })
            }),
            old(self).yank_view().len() > 0 && !old(self).yank_is_newline() ==> ({
                let bv = old(self).buffer_view();
                if row < bv.len() {
                    r is InLine && final(self).buffer_view() == rows_insert_str(
                        bv,
                        row as int,
                        inline_paste_col(col as int, bv[row as int].len() as int, direction is Below),
                        old(self).yank_view()[0],
                    ) && final(self).spec_dirty()
                } else {
                    r is Empty && final(self).buffer_view() == bv && final(self).spec_dirty()
                        == old(self).spec_dirty()
                }
            }),
    {
        if self.yank_manager.is_empty() {
            return PasteResult::Empty;
        }
        if self.yank_manager.is_newline_yank() {
            let below = matches!(direction, PasteDirection::Below);
            let ghost at0: int = if below {
                row + 1
            } else {
                row as int
            };
            let base_ok = if below {
                row < self.buffer.len()
            } else {
                row <= self.buffer.len()
            };
            if !base_ok {
                proof {
                    lemma_insert_all_out_of_range(self.buffer_view(), at0, self.yank_view());
                }
            } else {
                let base: usize = if below {
                    row + 1
                } else {
                    row
                };
                let n = self.yank_manager.buffer.len();
                let ghost bv0 = self.buffer_view();
                let ghost lines = self.yank_view();
                let ghost filename0 = self.spec_filename();
                let ghost trailing0 = self.spec_trailing_newline();
                let ghost dirty0 = self.spec_dirty();
                let mut i: usize = 0;
                proof {
                    assert(lines.skip(0) =~~= lines);
                }
                while i < n
                    invariant
                        i <= n,
                        self.yank_manager.buffer@.len() == n,
                        lines == self.yank_manager.spec_content(),
                        self.yank_is_newline(),
                        self.spec_filename() == filename0,
                        self.spec_trailing_newline() == trailing0,
                        self.spec_dirty() == dirty0,
                        forall|j: int| 0 <= j < n ==> self.yank_manager.buffer@[j]@ == lines[j],
                        base + i <= self.buffer_view().len(),
                        self.buffer_view().len() == bv0.len() + i,
                        rows_insert_all(bv0, base as int, lines) == rows_insert_all(
                            self.buffer_view(),
                            base + i,
                            lines.skip(i as int),
                        ),
                    decreases n - i,
                {
                    let line = copy_chars(&self.yank_manager.buffer[i]);
                    let current_len = self.buffer.len();
                    assert(base + i <= current_len);
                    let at = base + i;
                    proof {
                        assert(lines.skip(i as int)[0] == lines[i as int]);
                        assert(lines.skip(i as int).skip(1) =~~= lines.skip(i + 1));
                    }
                    self.buffer.insert_row(at, line);
                    i = i + 1;
                }
                proof {
                    assert(lines.skip(n as int) =~~= Seq::<Seq<char>>::empty());
                }
            }
            self.dirty = true;
            if below {
                PasteResult::Below
            } else {
                PasteResult::Above
            }
        } else {
            let line_len = match self.buffer.row(row) {
                Some(line) => line.len(),
                None => {
                    return PasteResult::Empty;
                },
            };
            let below = matches!(direction, PasteDirection::Below);
            let at = if below {
                if col < line_len {
                    col + 1
                } else {
                    line_len
                }
            } else {
                if col < line_len {
                    col
                } else {
                    line_len
                }
            };
            let fragment = copy_chars(&self.yank_manager.buffer[0]);
            let _ = self.buffer.insert_str(row, at, &fragment);
            self.dirty = true;
            PasteResult::InLine
        }
    }

    /// Copies the visual-mode selection `[start, end]` (either order) into
    /// the register: one line becomes an in-line fragment, several become
    /// whole lines. A pure copy: the buffer and dirty flag are untouched.
    pub fn yank_range(&mut self, start: Position, end: Position) -> (r: bool)
        ensures
            r == range_applies(old(self).buffer_view(), start, end),
            r ==> final(self).yank_view() == range_yank_lines(old(self).buffer_view(), start, end)
                && final(self).yank_is_newline() == (range_yank_lines(
                old(self).buffer_view(),
                start,
                end,
            ).len() > 1),
            !r ==> final(self).yank_view() == old(self).yank_view() && final(self).yank_is_newline()
                == old(self).yank_is_newline(),
            final(self).buffer_view() == old(self).buffer_view(),
            final(self).spec_dirty() == old(self).spec_dirty(),
            final(self).spec_filename() == old(self).spec_filename(),
            final(self).spec_trailing_newline() == old(self).spec_trailing_newline(),
    {
        let ghost bv = self.buffer_view();
        let (ns, ne) = normalize_range(start, end);
        let len = self.buffer.len();
        if len == 0 || ns.row >= len {
            return false;
        }
        let erow: usize;
        let ecol: usize;
        if ne.row < len {
            erow = ne.row;
            ecol = ne.col;
        } else {
            erow = len - 1;
            ecol = match self.buffer.row(erow) {
                Some(r0) => r0.len(),
                None => {
                    proof {
                        assert(false);
                    }
                    0
                },
            };
        }
        let ghost sr = ns.row as int;
        let ghost sc = ns.col as int;
        let ghost er = erow as int;
        let ghost ec = ecol as int;
        proof {
            assert((er, ec) == clamp_range_end(bv, ne.row as int, ne.col as int));
            assert(sr <= er);
        }
        if ns.row == erow {
            let rowc = match self.buffer.get_row_content(ns.row) {
                Some(c) => c,
                None => {
                    proof {
                        assert(false);
                    }
                    Vec::new()
                },
            };
            let from = if ns.col < rowc.len() {
                ns.col
            } else {
                rowc.len()
            };
            let to = if ecol < rowc.len() {
                ecol + 1
            } else {
                rowc.len()
            };
            assert(from <= to);
            let fragment = copy_range(&rowc, from, to);
            self.yank_manager.yank_inline(fragment);
            proof {
                assert(self.yank_view() =~~= extract_range(bv, sr, sc, er, ec));
            }
        } else {
            let mut lines: Vec<Vec<char>> = Vec::new();
            let firstc = match self.buffer.get_row_content(ns.row) {
                Some(c) => c,
                None => {
                    proof {
                        assert(false);
                    }
                    Vec::new()
                },
            };
            let from = if ns.col < firstc.len() {
                ns.col
            } else {
                firstc.len()
            };
            let first_tail = copy_range(&firstc, from, firstc.len());
            proof {
                assert(first_tail@ =~= bv[sr].skip(vstd::math::min(sc, bv[sr].len() as int)));
            }
            lines.push(first_tail);
            let mut i: usize = ns.row + 1;
            while i < erow
                invariant
                    ns.row + 1 <= i <= erow,
                    er == erow as int,
                    sr == ns.row as int,
                    erow < self.buffer_view().len(),
                    bv == self.buffer_view(),
                    lines@.len() == i - ns.row,
                    lines@[0]@ == bv[sr].skip(vstd::math::min(sc, bv[sr].len() as int)),
                    forall|j: int| 1 <= j < lines@.len() ==> lines@[j]@ == bv[sr + j],
                decreases erow - i,
            {
                let interior = match self.buffer.get_row_content(i) {
                    Some(c) => c,
                    None => {
                        proof {
                            assert(false);
                        }
                        Vec::new()
                    },
                };
                lines.push(interior);
                i = i + 1;
            }
            let lastc = match self.buffer.get_row_content(erow) {
                Some(c) => c,
                None => {
                    proof {
                        assert(false);
                    }
                    Vec::new()
                },
            };
            let to = if ecol < lastc.len() {
                ecol + 1
            } else {
                lastc.len()
            };
            let last_head = copy_range(&lastc, 0, to);
            proof {
                assert(last_head@ =~= bv[er].take(vstd::math::min(ec + 1, bv[er].len() as int)));
            }
            lines.push(last_head);
            self.yank_manager.yank_lines(lines);
            proof {
                assert(self.yank_view() =~~= extract_range(bv, sr, sc, er, ec));
            }
        }
        self.sync_to_clipboard();
        true
    }

    /// Deletes the visual-mode selection `[start, end]` (either order): the
    /// removed text is first captured in the register exactly as `yank_range`
    /// stores it, then the rows are physically removed and the session is
    /// marked dirty.
    #[verifier::rlimit(50)]
    pub fn delete_range(&mut self, start: Position, end: Position) -> (r: bool)
        ensures
            r == range_applies(old(self).buffer_view(), start, end),
            r ==> final(self).buffer_view() == range_removed(old(self).buffer_view(), start, end)
                && final(self).yank_view() == range_yank_lines(old(self).buffer_view(), start, end)
                && final(self).yank_is_newline() == (range_yank_lines(
                old(self).buffer_view(),
                start,
                end,
            ).len() > 1) && final(self).spec_dirty(),
            !r ==> final(self).buffer_view() == old(self).buffer_view() && final(self).yank_view()
                == old(self).yank_view() && final(self).yank_is_newline() == old(
                self,
            ).yank_is_newline() && final(self).spec_dirty() == old(self).spec_dirty(),
            final(self).spec_filename() == old(self).spec_filename(),
            final(self).spec_trailing_newline() == old(self).spec_trailing_newline(),
    {
        let ghost bv = self.buffer_view();
        if !self.yank_range(start, end) {
            return false;
        }
        let ghost yank1 = self.yank_view();
        let ghost newline1 = self.yank_is_newline();
        let ghost filename1 = self.spec_filename();
        let ghost trailing1 = self.spec_trailing_newline();
        let ghost dirty1 = self.spec_dirty();
        let (ns, ne) = normalize_range(start, end);
        let len = self.buffer.len();
        let sr = ns.row;
        let erow: usize;
        let ecol: usize;
        if ne.row < len {
            erow = ne.row;
            ecol = ne.col;
        } else {
            erow = len - 1;
            ecol = match self.buffer.row(erow) {
                Some(r0) => r0.len(),
                None => {
                    proof {
                        assert(false);
                    }
                    0
                },
            };
        }
        let ghost src = sr as int;
        let ghost sc = ns.col as int;
        let ghost er = erow as int;
        let ghost ec = ecol as int;
        proof {
            assert((er, ec) == clamp_range_end(bv, ne.row as int, ne.col as int));
        }
        if sr == erow {
            let rowlen = match self.buffer.row(sr) {
                Some(r0) => r0.len(),
                None => {
                    proof {
                        assert(false);
                    }
                    0
                },
            };
            let from = if ns.col < rowlen {
                ns.col
            } else {
                rowlen
            };
            let to = if ecol < rowlen {
                ecol + 1
            } else {
                rowlen
            };
            assert(from <= to);
            let count = to - from;
            proof {
                assert(bv[src].take(from as int) + bv[src].skip(from as int) =~= bv[src]);
                assert(bv.update(src, bv[src]) =~~= bv);
            }
            let mut k: usize = 0;
            while k < count
                invariant
                    k <= count,
                    src == sr as int,
                    0 <= src < bv.len(),
                    from + count <= bv[src].len(),
                    self.buffer_view() == bv.update(
                        src,
                        bv[src].take(from as int) + bv[src].skip(from + k),
                    ),
                    self.yank_view() == yank1,
                    self.yank_is_newline() == newline1,
                    self.spec_filename() == filename1,
                    self.spec_trailing_newline() == trailing1,
                    self.spec_dirty() == dirty1,
                decreases count - k,
            {
                let ghost before = self.buffer_view();
                let _ = self.buffer.delete_char(sr, from);
                proof {
                    assert(before[src].len() == bv[src].len() - k);
                    assert(from < before[src].len());
                    assert(before[src].remove(from as int) =~= bv[src].take(from as int)
                        + bv[src].skip(from + k + 1));
                    assert(self.buffer_view() =~~= bv.update(
                        src,
                        bv[src].take(from as int) + bv[src].skip(from + k + 1),
                    ));
                }
                k = k + 1;
            }
            proof {
                assert(self.buffer_view() =~~= remove_range(bv, src, sc, er, ec));
            }
        } else {
            let lastc = match self.buffer.get_row_content(erow) {
                Some(c) => c,
                None => {
                    proof {
                        assert(false);
                    }
                    Vec::new()
                },
            };
            let to = if ecol < lastc.len() {
                ecol + 1
            } else {
                lastc.len()
            };
            let suffix = copy_range(&lastc, to, lastc.len());
            proof {
                assert(suffix@ =~= bv[er].skip(vstd::math::min(ec + 1, bv[er].len() as int)));
            }
            let rowlen = match self.buffer.row(sr) {
                Some(r0) => r0.len(),
                None => {
                    proof {
                        assert(false);
                    }
                    0
                },
            };
            let from = if ns.col < rowlen {
                ns.col
            } else {
                rowlen
            };
            let count1 = rowlen - from;
            proof {
                assert(bv[src].take(from as int) + bv[src].skip(from as int) =~= bv[src]);
                assert(bv.update(src, bv[src]) =~~= bv);
            }
            let mut k: usize = 0;
            while k < count1
                invariant
                    k <= count1,
                    src == sr as int,
                    0 <= src < bv.len(),
                    from + count1 == bv[src].len(),
                    self.buffer_view() == bv.update(
                        src,
                        bv[src].take(from as int) + bv[src].skip(from + k),
                    ),
                    self.yank_view() == yank1,
                    self.yank_is_newline() == newline1,
                    self.spec_filename() == filename1,
                    self.spec_trailing_newline() == trailing1,
                    self.spec_dirty() == dirty1,
                decreases count1 - k,
            {
                let ghost before = self.buffer_view();
                let _ = self.buffer.delete_char(sr, from);
                proof {
                    assert(before[src].len() == bv[src].len() - k);
                    assert(from < before[src].len());
                    assert(before[src].remove(from as int) =~= bv[src].take(from as int)
                        + bv[src].skip(from + k + 1));
                    assert(self.buffer_view() =~~= bv.update(
                        src,
                        bv[src].take(from as int) + bv[src].skip(from + k + 1),
                    ));
                }
                k = k + 1;
            }
            let ghost bva = bv.update(src, bv[src].take(from as int));
            proof {
                assert(bv[src].skip(from + count1) =~= Seq::<char>::empty());
                assert(bv[src].take(from as int) + Seq::<char>::empty() =~= bv[src].take(
                    from as int,
                ));
                assert(self.buffer_view() =~~= bva);
                assert(bva.take(src + 1) + bva.skip(src + 1) =~~= bva);
            }
            let count2 = erow - sr;
            let mut j: usize = 0;
            while j < count2
                invariant
                    j <= count2,
                    src == sr as int,
                    er == erow as int,
                    0 <= src < er < bva.len(),
                    count2 == er - src,
                    self.buffer_view() == bva.take(src + 1) + bva.skip(src + 1 + j),
                    self.yank_view() == yank1,
                    self.yank_is_newline() == newline1,
                    self.spec_filename() == filename1,
                    self.spec_trailing_newline() == trailing1,
                    self.spec_dirty() == dirty1,
                decreases count2 - j,
            {
                let ghost before = self.buffer_view();
                self.buffer.delete_row(sr + 1);
                proof {
                    assert(before.len() == bva.len() - j);
                    assert(src + 1 < before.len());
                    assert(before.remove(src + 1) =~~= bva.take(src + 1) + bva.skip(src + 1 + j
                        + 1));
                }
                j = j + 1;
            }
            proof {
                assert(self.buffer_view() =~~= bva.take(src + 1) + bva.skip(er + 1));
            }
            let ghost bvb = self.buffer_view();
            let inserted = self.buffer.insert_str(sr, from, &suffix);
            proof {
                assert(bvb[src].len() == from);
                assert(inserted);
                assert(bvb[src].take(from as int) =~= bvb[src]);
                assert(bvb[src].skip(from as int) =~= Seq::<char>::empty());
                assert(self.buffer_view()[src] =~= bv[src].take(from as int) + suffix@);
                assert(self.buffer_view() =~~= remove_range(bv, src, sc, er, ec));
            }
        }
        self.dirty = true;
        true
    }
}

/// A paste of a line yank of row `row`, below cursor row `prow`, inserts the
/// yanked line at `prow + 1` and leaves every other row in place: rows at or
/// above `prow` keep their index, rows below shift down by one.
pub proof fn lemma_paste_line_below(bv: Seq<Seq<char>>, row: int, prow: int)
    requires
        0 <= row < bv.len(),
        0 <= prow < bv.len(),
    ensures
        ({
            let after = rows_insert_all(bv, prow + 1, seq![bv[row]]);
            after.len() == bv.len() + 1 && after[prow + 1] == bv[row] && (forall|i: int|
                0 <= i <= prow ==> after[i] == bv[i]) && (forall|i: int|
                prow + 1 < i < after.len() ==> after[i] == bv[i - 1])
        }),
{
    lemma_insert_all_in_range(bv, prow + 1, seq![bv[row]]);
    let after = rows_insert_all(bv, prow + 1, seq![bv[row]]);
    assert(after =~~= bv.take(prow + 1) + seq![bv[row]] + bv.skip(prow + 1));
}

/// Deleting the character at `col` and pasting it back below at the same
/// cursor re-inserts it at `col + 1` relative to its deletion point: the
/// character moves one position right. (Deleting the last character of the
/// line instead pastes it back at the line end, which is `col`.)
pub proof fn lemma_delete_then_paste_char(line: Seq<char>, col: int)
    requires
        0 <= col,
        col + 1 < line.len(),
    ensures
        ({
            let removed = line_delete_char(line, col);
            inline_paste_col(col, removed.len() as int, true) == col + 1 && line_insert_str(
                removed,
                col + 1,
                seq![line[col]],
            ) == removed.insert(col + 1, line[col])
        }),
{
    let removed = line_delete_char(line, col);
    assert(removed.take(col + 1) + seq![line[col]] + removed.skip(col + 1) =~= removed.insert(
        col + 1,
        line[col],
    ));
}

/// Deleting a range yanks exactly the removed text: splicing the joined yank
/// back between the retained prefix and suffix of the merged row reconstructs
/// the selected rows of the original buffer.
pub proof fn lemma_delete_range_reconstructs(
    bv: Seq<Seq<char>>,
    sr: int,
    sc: int,
    er: int,
    ec: int,
)
    requires
        0 <= sr <= er < bv.len(),
        0 <= sc <= bv[sr].len(),
        0 <= ec < bv[er].len(),
        sr == er ==> sc <= ec,
    ensures
        ({
            let yanked = extract_range(bv, sr, sc, er, ec);
            let after = remove_range(bv, sr, sc, er, ec);
            join_lines(bv.subrange(sr, er + 1)) == after[sr].take(sc) + join_lines(yanked)
                + after[sr].skip(sc)
        }),
{
    let yanked = extract_range(bv, sr, sc, er, ec);
    let after = remove_range(bv, sr, sc, er, ec);
    if sr == er {
        let line = bv[sr];
        assert(after[sr] == line.take(sc) + line.skip(ec + 1));
        assert(yanked == seq![line.subrange(sc, ec + 1)]);
        assert(join_lines(yanked) == line.subrange(sc, ec + 1));
        assert(bv.subrange(sr, sr + 1) =~~= seq![line]);
        assert(join_lines(seq![line]) == line);
        assert(after[sr].take(sc) =~= line.take(sc));
        assert(after[sr].skip(sc) =~= line.skip(ec + 1));
        assert(line.take(sc) + line.subrange(sc, ec + 1) + line.skip(ec + 1) =~= line);
    } else {
        let first = bv[sr];
        let last = bv[er];
        let mid = bv.subrange(sr + 1, er);
        assert(yanked == seq![first.skip(sc)] + mid + seq![last.take(ec + 1)]);
        assert(after[sr] == first.take(sc) + last.skip(ec + 1));
        assert(after[sr].take(sc) =~= first.take(sc));
        assert(after[sr].skip(sc) =~= last.skip(ec + 1));
        let sel = bv.subrange(sr, er + 1);
        assert(sel.len() >= 2);
        assert(sel[0] == first);
        assert(sel.skip(1) =~~= mid.push(last));
        assert(join_lines(sel) == first + seq!['\n'] + join_lines(mid.push(last)));
        lemma_join_push(mid, last);
        assert(yanked.len() >= 2);
        assert(yanked[0] == first.skip(sc));
        assert(yanked.skip(1) =~~= mid.push(last.take(ec + 1)));
        assert(join_lines(yanked) == first.skip(sc) + seq!['\n'] + join_lines(
            mid.push(last.take(ec + 1)),
        ));
        lemma_join_push(mid, last.take(ec + 1));
        if mid.len() == 0 {
            assert(join_lines(mid.push(last)) == last);
            assert(join_lines(mid.push(last.take(ec + 1))) == last.take(ec + 1));
            assert(after[sr].take(sc) + join_lines(yanked) + after[sr].skip(sc) =~= first
                + seq!['\n'] + last);
        } else {
            assert(join_lines(mid.push(last)) == join_lines(mid) + seq!['\n'] + last);
            assert(join_lines(mid.push(last.take(ec + 1))) == join_lines(mid) + seq!['\n']
                + last.take(ec + 1));
            assert(after[sr].take(sc) + join_lines(yanked) + after[sr].skip(sc) =~= first
                + seq!['\n'] + (join_lines(mid) + seq!['\n'] + last));
        }
    }
}

} // verus!
