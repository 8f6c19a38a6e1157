//! The line-oriented text buffer: a `Row` of editable characters plus its
//! render-ready form, and a `Buffer` holding an ordered sequence of rows.
use vstd::prelude::*;

verus! {

/// How a row's editable characters map to its render-ready form. Every
/// character currently renders as itself (tab expansion would change this).
pub open spec fn render_of(chars: Seq<char>) -> Seq<char> {
    chars
}

/// Appends `v[from..to]` onto `dst`, element by element.
pub(crate) fn append_range(dst: &mut Vec<char>, v: &Vec<char>, from: usize, to: usize)
    requires
        from <= to <= v@.len(),
    ensures
        final(dst)@ == old(dst)@ + v@.subrange(from as int, to as int),
{
    let ghost orig = dst@;
    let mut i: usize = from;
    while i < to
        invariant
            from <= i <= to <= v@.len(),
            dst@ == orig + v@.subrange(from as int, i as int),
        decreases to - i,
    {
        dst.push(v[i]);
        proof {
            assert(dst@ =~= orig + v@.subrange(from as int, i + 1));
        }
        i = i + 1;
    }
}

/// Copies `v[from..to]` into a fresh vector.
pub(crate) fn copy_range(v: &Vec<char>, from: usize, to: usize) -> (r: Vec<char>)
    requires
        from <= to <= v@.len(),
    ensures
        r@ == v@.subrange(from as int, to as int),
{
    let mut r: Vec<char> = Vec::new();
    append_range(&mut r, v, from, to);
    r
}

/// Copies a character vector.
pub(crate) fn copy_chars(v: &Vec<char>) -> (r: Vec<char>)
    ensures
        r@ == v@,
{
    let r = copy_range(v, 0, v.len());
    proof {
        assert(v@.subrange(0, v@.len() as int) =~= v@);
    }
    r
}

/// One line of buffer content. `chars` is authoritative (persistence and
/// yanking read it); `render` is re-derived from `chars` after every mutation.
pub struct Row {
    chars: Vec<char>,
    render: Vec<char>,
}

impl View for Row {
    type V = Seq<char>;

    closed spec fn view(&self) -> Seq<char> {
        self.chars@
    }
}

impl Row {
    #[verifier::type_invariant]
    spec fn render_derived(self) -> bool {
        self.render@ == render_of(self.chars@)
    }

    pub fn new(text: Vec<char>) -> (r: Row)
        ensures
            r@ == text@,
    {
        let render = copy_chars(&text);
        Row { chars: text, render }
    }

    pub fn chars(&self) -> (r: &Vec<char>)
        ensures
            r@ == self@,
    {
        &self.chars
    }

    pub fn render(&self) -> (r: &Vec<char>)
        ensures
            r@ == render_of(self@),
    {
        proof {
            use_type_invariant(&*self);
        }
        &self.render
    }

    pub fn len(&self) -> (r: usize)
        ensures
            r == self@.len(),
    {
        self.chars.len()
    }

    pub fn is_empty(&self) -> (r: bool)
        ensures
            r == (self@.len() == 0),
    {
        self.chars.is_empty()
    }

    /// Inserts `ch` before position `at`; an out-of-range `at` is ignored.
    pub fn insert_char(&mut self, at: usize, ch: char)
        ensures
            at <= old(self)@.len() ==> final(self)@ == old(self)@.insert(at as int, ch),
            at > old(self)@.len() ==> final(self)@ == old(self)@,
    {
        if at <= self.chars.len() {
            let mut chars = copy_chars(&self.chars);
            chars.insert(at, ch);
            let render = copy_chars(&chars);
            *self = Row { chars, render };
        }
    }

    /// Inserts all of `s` before position `at`; an out-of-range `at` is ignored.
    pub fn insert_str(&mut self, at: usize, s: &Vec<char>)
        ensures
            at <= old(self)@.len() ==> final(self)@ == old(self)@.take(at as int) + s@ + old(
                self,
            )@.skip(at as int),
            at > old(self)@.len() ==> final(self)@ == old(self)@,
    {
        if at <= self.chars.len() {
            let mut chars = copy_range(&self.chars, 0, at);
            append_range(&mut chars, s, 0, s.len());
            append_range(&mut chars, &self.chars, at, self.chars.len());
            proof {
                assert(s@.subrange(0, s@.len() as int) =~= s@);
                assert(chars@ =~= self@.take(at as int) + s@ + self@.skip(at as int));
            }
            let render = copy_chars(&chars);
            *self = Row { chars, render };
        }
    }

    /// Removes and returns the character at `at`, if it is in range.
    pub fn delete_char(&mut self, at: usize) -> (r: Option<char>)
        ensures
            at < old(self)@.len() ==> r == Some(old(self)@[at as int]) && final(self)@ == old(
                self,
            )@.remove(at as int),
            at >= old(self)@.len() ==> r == None::<char> && final(self)@ == old(self)@,
    {
        if at < self.chars.len() {
            let mut chars = copy_chars(&self.chars);
            let ch = chars.remove(at);
            let render = copy_chars(&chars);
            *self = Row { chars, render };
            Some(ch)
        } else {
            None
        }
    }

    /// Splits the row at `at`: the row keeps the prefix, the tail is returned.
    /// An out-of-range `at` leaves the row unchanged and returns nothing.
    pub fn split_off(&mut self, at: usize) -> (r: Vec<char>)
        ensures
            at <= old(self)@.len() ==> final(self)@ == old(self)@.take(at as int) && r@ == old(
                self,
            )@.skip(at as int),
            at > old(self)@.len() ==> final(self)@ == old(self)@ && r@ == Seq::<char>::empty(),
    {
        if at <= self.chars.len() {
            let mut chars = copy_chars(&self.chars);
            let tail = chars.split_off(at);
            let render = copy_chars(&chars);
            *self = Row { chars, render };
            tail
        } else {
            Vec::new()
        }
    }

    /// Appends all of `s` to the end of the row.
    pub fn append(&mut self, s: &Vec<char>)
        ensures
            final(self)@ == old(self)@ + s@,
    {
        let mut chars = copy_chars(&self.chars);
        append_range(&mut chars, s, 0, s.len());
        proof {
            assert(s@.subrange(0, s@.len() as int) =~= s@);
        }
        let render = copy_chars(&chars);
        *self = Row { chars, render };
    }
}

/// Inserting `ch` at `col` of one line; an out-of-range `col` is ignored.
pub open spec fn line_insert_char(s: Seq<char>, col: int, ch: char) -> Seq<char> {
    if 0 <= col <= s.len() {
        s.insert(col, ch)
    } else {
        s
    }
}

/// Removing the character at `col` of one line; out of range is ignored.
pub open spec fn line_delete_char(s: Seq<char>, col: int) -> Seq<char> {
    if 0 <= col < s.len() {
        s.remove(col)
    } else {
        s
    }
}

/// Splicing `t` into one line before `col`; an out-of-range `col` is ignored.
pub open spec fn line_insert_str(s: Seq<char>, col: int, t: Seq<char>) -> Seq<char> {
    if 0 <= col <= s.len() {
        s.take(col) + t + s.skip(col)
    } else {
        s
    }
}

/// Inserting a whole row at `at`; an out-of-range `at` is ignored.
pub open spec fn rows_insert_row(bv: Seq<Seq<char>>, at: int, text: Seq<char>) -> Seq<Seq<char>> {
    if 0 <= at <= bv.len() {
        bv.insert(at, text)
    } else {
        bv
    }
}

/// Removing the row at `at`; an out-of-range `at` is ignored.
pub open spec fn rows_delete_row(bv: Seq<Seq<char>>, at: int) -> Seq<Seq<char>> {
    if 0 <= at < bv.len() {
        bv.remove(at)
    } else {
        bv
    }
}

/// Buffer-level character insertion: a row at or past the end is first created
/// empty, so inserting at the row one past the end always succeeds.
pub open spec fn rows_insert_char(bv: Seq<Seq<char>>, row: int, col: int, ch: char) -> Seq<
    Seq<char>,
> {
    let grown = if row >= bv.len() {
        bv.push(Seq::<char>::empty())
    } else {
        bv
    };
    if 0 <= row < grown.len() {
        grown.update(row, line_insert_char(grown[row], col, ch))
    } else {
        grown
    }
}

/// Buffer-level character removal; out-of-range requests are ignored.
pub open spec fn rows_delete_char(bv: Seq<Seq<char>>, row: int, col: int) -> Seq<Seq<char>> {
    if 0 <= row < bv.len() {
        bv.update(row, line_delete_char(bv[row], col))
    } else {
        bv
    }
}

/// The character that buffer-level removal takes out, if any.
pub open spec fn rows_deleted_char(bv: Seq<Seq<char>>, row: int, col: int) -> Option<char> {
    if 0 <= row < bv.len() && 0 <= col < bv[row].len() {
        Some(bv[row][col])
    } else {
        None
    }
}

/// Splitting row `row` at `col` into two rows; a row at or past the end
/// becomes one new empty row; a `col` past the line end splits at the end.
pub open spec fn rows_insert_newline(bv: Seq<Seq<char>>, row: int, col: int) -> Seq<Seq<char>> {
    if row >= bv.len() || row < 0 {
        bv.push(Seq::<char>::empty())
    } else {
        let c = if 0 <= col <= bv[row].len() {
            col
        } else {
            bv[row].len() as int
        };
        bv.update(row, bv[row].take(c)).insert(row + 1, bv[row].skip(c))
    }
}

/// Merging row `row` into the row above it; ignored at row zero or out of range.
pub open spec fn rows_join(bv: Seq<Seq<char>>, row: int) -> Seq<Seq<char>> {
    if 0 < row < bv.len() {
        bv.remove(row).update(row - 1, bv[row - 1] + bv[row])
    } else {
        bv
    }
}

/// Splicing `t` into the row at `row` before `col`; out of range is ignored.
pub open spec fn rows_insert_str(bv: Seq<Seq<char>>, row: int, col: int, t: Seq<char>) -> Seq<
    Seq<char>,
> {
    if 0 <= row < bv.len() {
        bv.update(row, line_insert_str(bv[row], col, t))
    } else {
        bv
    }
}

/// An insertion-ordered sequence of rows; it owns all editable content.
/// A buffer may be empty (zero rows), which is distinct from one empty row.
pub struct Buffer {
    rows: Vec<Row>,
}

impl View for Buffer {
    type V = Seq<Seq<char>>;

    closed spec fn view(&self) -> Seq<Seq<char>> {
        self.rows@.map_values(|r: Row| r@)
    }
}

impl Buffer {
    pub fn new() -> (r: Buffer)
        ensures
            r@ == Seq::<Seq<char>>::empty(),
    {
        let b = Buffer { rows: Vec::new() };
        proof {
            assert(b@ =~~= Seq::<Seq<char>>::empty());
        }
        b
    }

    pub fn len(&self) -> (r: usize)
        ensures
            r == self@.len(),
    {
        self.rows.len()
    }

    pub fn is_empty(&self) -> (r: bool)
        ensures
            r == (self@.len() == 0),
    {
        self.rows.is_empty()
    }

    pub fn row(&self, index: usize) -> (r: Option<&Row>)
        ensures
            match r {
                Some(row) => index < self@.len() && row@ == self@[index as int],
                None => index >= self@.len(),
            },
    {
        if index < self.rows.len() {
            Some(&self.rows[index])
        } else {
            None
        }
    }

    pub fn rows(&self) -> (r: &Vec<Row>)
        ensures
            r@.len() == self@.len(),
            forall|i: int| 0 <= i < r@.len() ==> r@[i]@ == self@[i],
    {
        &self.rows
    }

    /// Inserts a row holding `text` at index `at` if `at <= len`; otherwise
    /// the request is silently ignored.
    pub fn insert_row(&mut self, at: usize, text: Vec<char>)
        ensures
            final(self)@ == rows_insert_row(old(self)@, at as int, text@),
    {
        if at <= self.rows.len() {
            self.rows.insert(at, Row::new(text));
            proof {
                assert(self@ =~~= rows_insert_row(old(self)@, at as int, text@));
            }
        }
    }

    /// Removes the row at `at` if it exists; otherwise ignored.
    pub fn delete_row(&mut self, at: usize)
        ensures
            final(self)@ == rows_delete_row(old(self)@, at as int),
    {
        if at < self.rows.len() {
            self.rows.remove(at);
            proof {
                assert(self@ =~~= rows_delete_row(old(self)@, at as int));
            }
        }
    }

    /// Inserts `ch` at `(row, col)`. A row at or past the end is first
    /// appended empty; a `col` past the line end is ignored.
    pub fn insert_char(&mut self, row: usize, col: usize, ch: char)
        ensures
            final(self)@ == rows_insert_char(old(self)@, row as int, col as int, ch),
    {
        if row >= self.rows.len() {
            let at = self.rows.len();
            self.rows.insert(at, Row::new(Vec::new()));
            proof {
                assert(self@ =~~= old(self)@.push(Seq::<char>::empty()));
            }
        }
        let ghost grown = self@;
        if row < self.rows.len() {
            let r = &mut self.rows[row];
            r.insert_char(col, ch);
            proof {
                assert(self@ =~~= grown.update(row as int, line_insert_char(grown[row as int], col as int, ch)));
            }
        }
        proof {
            assert(self@ =~~= rows_insert_char(old(self)@, row as int, col as int, ch));
        }
    }

    /// Removes and returns the character at `(row, col)`, if it is in range.
    pub fn delete_char(&mut self, row: usize, col: usize) -> (r: Option<char>)
        ensures
            final(self)@ == rows_delete_char(old(self)@, row as int, col as int),
            r == rows_deleted_char(old(self)@, row as int, col as int),
    {
        if row < self.rows.len() {
            let r = &mut self.rows[row];
            let ch = r.delete_char(col);
            proof {
                assert(self@ =~~= rows_delete_char(old(self)@, row as int, col as int));
            }
            ch
        } else {
            None
        }
    }

    /// Splits the row at `(row, col)` into two rows: the row keeps `[0, col)`
    /// and a new row holding `[col, end)` is inserted right after it. A row
    /// at or past the end appends one empty row instead.
    pub fn insert_newline(&mut self, row: usize, col: usize)
        ensures
            final(self)@ == rows_insert_newline(old(self)@, row as int, col as int),
    {
        if row >= self.rows.len() {
            let at = self.rows.len();
            self.rows.insert(at, Row::new(Vec::new()));
            proof {
                assert(self@ =~~= rows_insert_newline(old(self)@, row as int, col as int));
            }
        } else {
            let r = &mut self.rows[row];
            let tail = r.split_off(col);
            let ghost c: int = if col <= old(self)@[row as int].len() {
                col as int
            } else {
                old(self)@[row as int].len() as int
            };
            proof {
                assert(old(self)@[row as int].skip(old(self)@[row as int].len() as int)
                    =~= Seq::<char>::empty());
                assert(old(self)@[row as int].take(old(self)@[row as int].len() as int)
                    =~= old(self)@[row as int]);
                assert(r@ == old(self)@[row as int].take(c));
                assert(tail@ == old(self)@[row as int].skip(c));
            }
            let at = row + 1;
            self.rows.insert(at, Row::new(tail));
            proof {
                assert(self@ =~~= rows_insert_newline(old(self)@, row as int, col as int));
            }
        }
    }

    /// Merges row `row` into row `row - 1` by appending its full content;
    /// ignored if `row` is zero or out of range.
    pub fn join_rows(&mut self, row: usize)
        ensures
            final(self)@ == rows_join(old(self)@, row as int),
    {
        if row > 0 && row < self.rows.len() {
            let current = self.rows.remove(row);
            let prev = &mut self.rows[row - 1];
            prev.append(current.chars());
            proof {
                assert(self@ =~~= rows_join(old(self)@, row as int));
            }
        }
    }

    /// Splices `t` into the row at `row` before `col`, if that row exists and
    /// `col` is within it; returns whether the row existed.
    pub fn insert_str(&mut self, row: usize, col: usize, t: &Vec<char>) -> (r: bool)
        ensures
            final(self)@ == rows_insert_str(old(self)@, row as int, col as int, t@),
            r == (row < old(self)@.len()),
    {
        if row < self.rows.len() {
            let r = &mut self.rows[row];
            r.insert_str(col, t);
            proof {
                assert(self@ =~~= rows_insert_str(old(self)@, row as int, col as int, t@));
            }
            true
        } else {
            false
        }
    }

    /// Mutable access to the row at `index`, if it exists; the new buffer is
    /// the old one with that row replaced by whatever the caller leaves in
    /// the reference.
    pub fn row_mut(&mut self, index: usize) -> (r: Option<&mut Row>)
        ensures
            match r {
                Some(row) => index < old(self)@.len() && (*row)@ == old(self)@[index as int]
                    && final(self)@ == old(self)@.update(index as int, final(row)@),
                None => index >= old(self)@.len() && final(self)@ == old(self)@,
            },
    {
        if index < self.rows.len() {
            let row = &mut self.rows[index];
            Some(row)
        } else {
            None
        }
    }

    /// Removes the row at `at` and hands back its content, if it exists.
    pub fn delete_row_with_content(&mut self, at: usize) -> (r: Option<Vec<char>>)
        ensures
            final(self)@ == rows_delete_row(old(self)@, at as int),
            match r {
                Some(text) => at < old(self)@.len() && text@ == old(self)@[at as int],
                None => at >= old(self)@.len(),
            },
    {
        if at < self.rows.len() {
            let row = self.rows.remove(at);
            proof {
                assert(self@ =~~= rows_delete_row(old(self)@, at as int));
            }
            Some(copy_chars(row.chars()))
        } else {
            None
        }
    }

    /// Hands back a copy of the content of the row at `at`, if it exists.
    pub fn get_row_content(&self, at: usize) -> (r: Option<Vec<char>>)
        ensures
            match r {
                Some(text) => at < self@.len() && text@ == self@[at as int],
                None => at >= self@.len(),
            },
    {
        if at < self.rows.len() {
            Some(copy_chars(self.rows[at].chars()))
        } else {
            None
        }
    }
}

/// Inserting a character at a valid position and deleting at the same
/// position restores the buffer exactly, and the deleted character is the
/// inserted one.
pub proof fn lemma_insert_then_delete_char(bv: Seq<Seq<char>>, row: int, col: int, ch: char)
    requires
        0 <= row < bv.len(),
        0 <= col <= bv[row].len(),
    ensures
        rows_delete_char(rows_insert_char(bv, row, col, ch), row, col) == bv,
        rows_deleted_char(rows_insert_char(bv, row, col, ch), row, col) == Some(ch),
{
    let after = rows_insert_char(bv, row, col, ch);
    assert(after == bv.update(row, bv[row].insert(col, ch)));
    assert(bv[row].insert(col, ch).remove(col) =~= bv[row]);
    assert(rows_delete_char(after, row, col) =~~= bv);
}

} // verus!
