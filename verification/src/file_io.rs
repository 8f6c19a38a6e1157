//! The persistence codec: how buffer rows map to the character content of a
//! file. An input ending in a newline yields the same rows as one without it,
//! plus a flag remembering the trailing newline, so that encoding the rows
//! again reproduces the original content exactly (`lemma_decode_encode_roundtrip`).
use vstd::prelude::*;

use crate::buffer::Buffer;
use crate::buffer::append_range;
use crate::buffer::copy_range;

verus! {

/// Splits text into newline-separated lines. Text without a newline is one
/// line; each newline ends a line, so `"a\nb"` gives two lines and `""` one
/// empty line.
pub open spec fn split_lines(s: Seq<char>) -> Seq<Seq<char>>
    decreases s.len(),
{
    if s.len() == 0 {
        seq![Seq::<char>::empty()]
    } else if s[0] == '\n' {
        seq![Seq::<char>::empty()] + split_lines(s.skip(1))
    } else {
        let rest = split_lines(s.skip(1));
        seq![seq![s[0]] + rest[0]] + rest.skip(1)
    }
}

/// Joins lines with single newlines between them; no trailing newline.
pub open spec fn join_lines(rows: Seq<Seq<char>>) -> Seq<char>
    decreases rows.len(),
{
    if rows.len() == 0 {
        Seq::<char>::empty()
    } else if rows.len() == 1 {
        rows[0]
    } else {
        rows[0] + seq!['\n'] + join_lines(rows.skip(1))
    }
}

/// The rows a file's content decodes to: a trailing newline does not add an
/// empty final row, and an empty file has no rows at all (distinct from a
/// file holding just a newline, which has one empty row).
pub open spec fn decode_rows(s: Seq<char>) -> Seq<Seq<char>> {
    if s.len() == 0 {
        Seq::<Seq<char>>::empty()
    } else if s.last() == '\n' {
        split_lines(s.drop_last())
    } else {
        split_lines(s)
    }
}

/// Whether a file's content ends with a newline.
pub open spec fn decode_flag(s: Seq<char>) -> bool {
    s.len() > 0 && s.last() == '\n'
}

/// The content that rows encode to: lines joined by newlines, with a final
/// newline exactly when the preserved flag asks for one.
pub open spec fn encode_text(rows: Seq<Seq<char>>, trailing_newline: bool) -> Seq<char> {
    if rows.len() == 0 {
        Seq::<char>::empty()
    } else if trailing_newline {
        join_lines(rows) + seq!['\n']
    } else {
        join_lines(rows)
    }
}

/// Splitting always yields at least one line.
pub proof fn lemma_split_lines_nonempty(s: Seq<char>)
    ensures
        split_lines(s).len() >= 1,
    decreases s.len(),
{
    if s.len() != 0 && s[0] != '\n' {
        lemma_split_lines_nonempty(s.skip(1));
    }
}

/// Text without any newline splits into exactly one line: itself.
pub proof fn lemma_split_no_newline(s: Seq<char>)
    requires
        forall|i: int| 0 <= i < s.len() ==> s[i] != '\n',
    ensures
        split_lines(s) == seq![s],
    decreases s.len(),
{
    if s.len() == 0 {
        assert(split_lines(s) =~~= seq![s]);
    } else {
        assert(forall|i: int| 0 <= i < s.skip(1).len() ==> s.skip(1)[i] != '\n');
        lemma_split_no_newline(s.skip(1));
        assert(seq![s[0]] + s.skip(1) =~= s);
        assert(split_lines(s) =~~= seq![s]);
    }
}

/// A newline after a newline-free prefix ends exactly one line there.
pub proof fn lemma_split_decompose(a: Seq<char>, b: Seq<char>)
    requires
        forall|i: int| 0 <= i < a.len() ==> a[i] != '\n',
    ensures
        split_lines(a + seq!['\n'] + b) == seq![a] + split_lines(b),
    decreases a.len(),
{
    let s = a + seq!['\n'] + b;
    if a.len() == 0 {
        assert(s[0] == '\n');
        assert(s.skip(1) =~= b);
        assert(split_lines(s) =~~= seq![a] + split_lines(b));
    } else {
        assert(s[0] == a[0]);
        assert(s[0] != '\n');
        assert(s.skip(1) =~= a.skip(1) + seq!['\n'] + b);
        assert(forall|i: int| 0 <= i < a.skip(1).len() ==> a.skip(1)[i] != '\n');
        lemma_split_decompose(a.skip(1), b);
        let rest = split_lines(s.skip(1));
        lemma_split_lines_nonempty(b);
        assert(rest == seq![a.skip(1)] + split_lines(b));
        assert(rest[0] == a.skip(1));
        assert(seq![s[0]] + rest[0] =~= a);
        assert(rest.skip(1) =~~= split_lines(b));
        assert(split_lines(s) =~~= seq![a] + split_lines(b));
    }
}

/// Appending one more line to a join adds one separating newline.
pub proof fn lemma_join_push(rows: Seq<Seq<char>>, line: Seq<char>)
    ensures
        join_lines(rows.push(line)) == if rows.len() == 0 {
            line
        } else {
            join_lines(rows) + seq!['\n'] + line
        },
    decreases rows.len(),
{
    let all = rows.push(line);
    if rows.len() == 0 {
        assert(all.len() == 1);
        assert(join_lines(all) == all[0]);
        assert(all[0] == line);
    } else {
        assert(all[0] == rows[0]);
        assert(all.skip(1) =~~= rows.skip(1).push(line));
        lemma_join_push(rows.skip(1), line);
        if rows.len() == 1 {
            assert(join_lines(all) =~= rows[0] + seq!['\n'] + line);
            assert(join_lines(rows) == rows[0]);
        } else {
            assert(join_lines(all) == rows[0] + seq!['\n'] + join_lines(rows.skip(1).push(line)));
            assert(join_lines(rows.skip(1).push(line)) == join_lines(rows.skip(1)) + seq!['\n']
                + line);
            assert(join_lines(all) =~= join_lines(rows) + seq!['\n'] + line);
        }
    }
}

/// Joining the lines that splitting produced restores the text exactly.
pub proof fn lemma_join_split(s: Seq<char>)
    ensures
        join_lines(split_lines(s)) == s,
    decreases s.len(),
{
    if s.len() == 0 {
    } else if s[0] == '\n' {
        lemma_join_split(s.skip(1));
        lemma_split_lines_nonempty(s.skip(1));
        let parts = split_lines(s);
        assert(parts.len() >= 2);
        assert(parts[0] == Seq::<char>::empty());
        assert(parts.skip(1) =~~= split_lines(s.skip(1)));
        assert(join_lines(parts) == parts[0] + seq!['\n'] + join_lines(split_lines(s.skip(1))));
        assert(join_lines(parts) =~= s);
    } else {
        lemma_join_split(s.skip(1));
        lemma_split_lines_nonempty(s.skip(1));
        let rest = split_lines(s.skip(1));
        let parts = split_lines(s);
        assert(parts == seq![seq![s[0]] + rest[0]] + rest.skip(1));
        if rest.len() == 1 {
            assert(parts.len() == 1);
            assert(join_lines(parts) == seq![s[0]] + rest[0]);
            assert(join_lines(rest) == rest[0]);
            assert(join_lines(parts) =~= s);
        } else {
            assert(parts.len() >= 2);
            assert(parts[0] == seq![s[0]] + rest[0]);
            assert(parts.skip(1) =~~= rest.skip(1));
            assert(join_lines(parts) == parts[0] + seq!['\n'] + join_lines(rest.skip(1)));
            assert(join_lines(rest) == rest[0] + seq!['\n'] + join_lines(rest.skip(1)));
            assert(join_lines(rest) == s.skip(1));
            assert(join_lines(parts) =~= seq![s[0]] + s.skip(1));
            assert(seq![s[0]] + s.skip(1) =~= s);
        }
    }
}

/// Decoding a file's content and encoding the rows with the preserved
/// trailing-newline flag reproduces the content byte for byte. This holds for
/// every input: with and without a trailing newline, empty, a lone newline,
/// and a multi-line file with an empty last line.
pub proof fn lemma_decode_encode_roundtrip(s: Seq<char>)
    ensures
        encode_text(decode_rows(s), decode_flag(s)) == s,
{
    if s.len() == 0 {
        assert(encode_text(decode_rows(s), decode_flag(s)) =~= s);
    } else if s.last() == '\n' {
        lemma_split_lines_nonempty(s.drop_last());
        lemma_join_split(s.drop_last());
        assert(join_lines(split_lines(s.drop_last())) + seq!['\n'] =~= s);
    } else {
        lemma_split_lines_nonempty(s);
        lemma_join_split(s);
    }
}

/// The persistence codec between file content and buffer rows.
pub struct FileIO;

impl FileIO {
    /// Decodes file content into a buffer plus the trailing-newline flag.
    pub fn decode(text: &Vec<char>) -> (r: (Buffer, bool))
        ensures
            r.0@ == decode_rows(text@),
            r.1 == decode_flag(text@),
    {
        let n = text.len();
        let mut buffer = Buffer::new();
        if n == 0 {
            return (buffer, false);
        }
        let trailing = text[n - 1] == '\n';
        let m = if trailing {
            n - 1
        } else {
            n
        };
        let ghost goal = text@.take(m as int);
        proof {
            if trailing {
                assert(goal =~= text@.drop_last());
            } else {
                assert(goal =~= text@);
            }
        }
        let mut start: usize = 0;
        let mut i: usize = 0;
        proof {
            assert(goal.skip(0) =~= goal);
            assert(buffer@ + split_lines(goal) =~~= split_lines(goal));
        }
        while i < m
            invariant
                start <= i <= m <= text@.len(),
                goal == text@.take(m as int),
                forall|j: int| start <= j < i ==> text@[j] != '\n',
                split_lines(goal) == buffer@ + split_lines(goal.skip(start as int)),
            decreases m - i,
        {
            if text[i] == '\n' {
                let line = copy_range(text, start, i);
                proof {
                    assert(forall|j: int| 0 <= j < line@.len() ==> line@[j] != '\n');
                    assert(goal.skip(start as int) =~= line@ + seq!['\n'] + goal.skip(i + 1));
                    lemma_split_decompose(line@, goal.skip(i + 1));
                }
                let at = buffer.len();
                buffer.insert_row(at, line);
                start = i + 1;
            }
            i = i + 1;
        }
        let tail = copy_range(text, start, m);
        proof {
            assert(tail@ =~= goal.skip(start as int));
            assert(forall|j: int| 0 <= j < tail@.len() ==> tail@[j] != '\n');
            lemma_split_no_newline(tail@);
        }
        let at = buffer.len();
        buffer.insert_row(at, tail);
        proof {
            assert(buffer@ =~~= split_lines(goal));
        }
        (buffer, trailing)
    }

    /// Encodes buffer rows back into file content, appending the trailing
    /// newline exactly when the preserved flag asks for one.
    pub fn encode(buffer: &Buffer, trailing_newline: bool) -> (r: Vec<char>)
        ensures
            r@ == encode_text(buffer@, trailing_newline),
    {
        let mut out: Vec<char> = Vec::new();
        let n = buffer.len();
        if n == 0 {
            return out;
        }
        let rows = buffer.rows();
        let mut i: usize = 0;
        while i < n
            invariant
                i <= n == buffer@.len(),
                rows@.len() == buffer@.len(),
                forall|j: int| 0 <= j < rows@.len() ==> rows@[j]@ == buffer@[j],
                out@ == join_lines(buffer@.take(i as int)),
            decreases n - i,
        {
            if i > 0 {
                out.push('\n');
            }
            let row = &rows[i];
            append_range(&mut out, row.chars(), 0, row.len());
            proof {
                let prefix = buffer@.take(i as int);
                lemma_join_push(prefix, buffer@[i as int]);
                assert(prefix.push(buffer@[i as int]) =~~= buffer@.take(i + 1));
                assert(buffer@[i as int].subrange(0, buffer@[i as int].len() as int)
                    =~= buffer@[i as int]);
                assert(out@ == join_lines(buffer@.take(i + 1)));
            }
            i = i + 1;
        }
        proof {
            assert(buffer@.take(n as int) =~~= buffer@);
        }
        if trailing_newline {
            out.push('\n');
            proof {
                assert(out@ =~= join_lines(buffer@) + seq!['\n']);
            }
        }
        out
    }
}

} // verus!
