//! The command-line surface: parsing what the user typed after `:` into the
//! recognized editor commands, and the unsaved-changes guard that decides
//! whether a command may run.
use vstd::prelude::*;

use crate::buffer::copy_range;

verus! {

/// The whitespace that separates command words.
pub open spec fn is_blank(c: char) -> bool {
    c == ' ' || c == '\t'
}

/// The blank-separated words of the command line, empty words dropped.
pub open spec fn tokens_of(s: Seq<char>) -> Seq<Seq<char>>
    decreases s.len(),
{
    if s.len() == 0 {
        Seq::<Seq<char>>::empty()
    } else if is_blank(s[0]) {
        tokens_of(s.skip(1))
    } else if s.len() == 1 {
        seq![seq![s[0]]]
    } else if is_blank(s[1]) {
        seq![seq![s[0]]] + tokens_of(s.skip(1))
    } else {
        let rest = tokens_of(s.skip(1));
        seq![seq![s[0]] + rest[0]] + rest.skip(1)
    }
}

/// A word followed by a blank (or the end) is one whole token.
pub proof fn lemma_tokens_word(word: Seq<char>, rest: Seq<char>)
    requires
        word.len() > 0,
        forall|i: int| 0 <= i < word.len() ==> !is_blank(word[i]),
        rest.len() == 0 || is_blank(rest[0]),
    ensures
        tokens_of(word + rest) == seq![word] + tokens_of(rest),
    decreases word.len(),
{
    let s = word + rest;
    assert(s[0] == word[0]);
    if word.len() == 1 {
        if rest.len() == 0 {
            assert(s.len() == 1);
            assert(seq![s[0]] =~= word);
            assert(tokens_of(s) =~~= seq![word] + tokens_of(rest));
        } else {
            assert(s[1] == rest[0]);
            assert(s.skip(1) =~= rest);
            assert(seq![s[0]] =~= word);
            assert(tokens_of(s) =~~= seq![word] + tokens_of(rest));
        }
    } else {
        assert(s[1] == word[1]);
        assert(s.skip(1) =~= word.skip(1) + rest);
        assert(forall|i: int| 0 <= i < word.skip(1).len() ==> !is_blank(word.skip(1)[i]));
        lemma_tokens_word(word.skip(1), rest);
        let inner = tokens_of(s.skip(1));
        assert(inner == seq![word.skip(1)] + tokens_of(rest));
        assert(inner[0] == word.skip(1));
        assert(seq![s[0]] + word.skip(1) =~= word);
        assert(inner.skip(1) =~~= tokens_of(rest));
        assert(tokens_of(s) =~~= seq![word] + tokens_of(rest));
    }
}

/// A recognized command-line command. Anything else is `Unknown`, and an
/// empty command line is `Nothing`.
pub enum CommandAction {
    /// `q`: quit; refused while changes are unsaved.
    Quit,
    /// `q!`: quit, discarding unsaved changes.
    ForceQuit,
    /// `w`: save.
    Write,
    /// `wq`: save, then quit.
    WriteQuit,
    /// `e [name]` / `e! [name]`: reload the current file or open another;
    /// refused while changes are unsaved unless forced.
    Edit { filename: Option<Vec<char>>, force: bool },
    Nothing,
    Unknown,
}

fn blank(c: char) -> (r: bool)
    ensures
        r == is_blank(c),
{
    c == ' ' || c == '\t'
}

fn token_is_1(t: &Vec<char>, a: char) -> (r: bool)
    ensures
        r == (t@ == seq![a]),
{
    let r = t.len() == 1 && t[0] == a;
    proof {
        if r {
            assert(t@ =~= seq![a]);
        }
    }
    r
}

fn token_is_2(t: &Vec<char>, a: char, b: char) -> (r: bool)
    ensures
        r == (t@ == seq![a, b]),
{
    let r = t.len() == 2 && t[0] == a && t[1] == b;
    proof {
        if r {
            assert(t@ =~= seq![a, b]);
        }
    }
    r
}

/// Splits the command line into its blank-separated words.
fn tokenize(input: &Vec<char>) -> (r: Vec<Vec<char>>)
    ensures
        r@.map_values(|v: Vec<char>| v@) == tokens_of(input@),
{
    let mut out: Vec<Vec<char>> = Vec::new();
    let n = input.len();
    let mut i: usize = 0;
    proof {
        assert(input@.skip(0) =~= input@);
        assert(out@.map_values(|v: Vec<char>| v@) + tokens_of(input@) =~~= tokens_of(input@));
    }
    while i < n
        invariant
            i <= n == input@.len(),
            tokens_of(input@) == out@.map_values(|v: Vec<char>| v@) + tokens_of(
                input@.skip(i as int),
            ),
        decreases n - i,
    {
        if blank(input[i]) {
            proof {
                assert(input@.skip(i as int).skip(1) =~= input@.skip(i + 1));
            }
            i = i + 1;
        } else {
            let mut j: usize = i + 1;
            while j < n && !blank(input[j])
                invariant
                    i < j <= n == input@.len(),
                    forall|k: int| i <= k < j ==> !is_blank(input@[k]),
                decreases n - j,
            {
                j = j + 1;
            }
            let word = copy_range(input, i, j);
            let ghost outv = out@.map_values(|v: Vec<char>| v@);
            proof {
                let w = input@.subrange(i as int, j as int);
                let rest = input@.skip(j as int);
                assert(forall|k: int| 0 <= k < w.len() ==> !is_blank(w[k]));
                assert(input@.skip(i as int) =~= w + rest);
                lemma_tokens_word(w, rest);
            }
            out.push(word);
            proof {
                let w = input@.subrange(i as int, j as int);
                let rest = input@.skip(j as int);
                assert(out@.map_values(|v: Vec<char>| v@) =~~= outv.push(w));
                assert(outv.push(w) + tokens_of(rest) =~~= outv + (seq![w] + tokens_of(rest)));
            }
            i = j;
        }
    }
    proof {
        assert(input@.skip(n as int) =~= Seq::<char>::empty());
        assert(out@.map_values(|v: Vec<char>| v@) + tokens_of(Seq::<char>::empty())
            =~~= out@.map_values(|v: Vec<char>| v@));
    }
    out
}

/// Parses the command line into the recognized commands: `q`, `q!`, `w`,
/// `wq`, `e [name]`, `e! [name]`, the empty no-op, or `Unknown`. Only the
/// first word after the command is taken as a file name; further words are
/// ignored, as is everything after a recognized single word.
pub fn parse_command(input: &Vec<char>) -> (r: CommandAction)
    ensures
        ({
            let ts = tokens_of(input@);
            if ts.len() == 0 {
                r is Nothing
            } else if ts[0] == seq!['q'] {
                r is Quit
            } else if ts[0] == seq!['q', '!'] {
                r is ForceQuit
            } else if ts[0] == seq!['w'] {
                r is Write
            } else if ts[0] == seq!['w', 'q'] {
                r is WriteQuit
            } else if ts[0] == seq!['e'] || ts[0] == seq!['e', '!'] {
                r matches CommandAction::Edit { filename, force } && force == (ts[0] == seq![
                    'e',
                    '!',
                ]) && (if ts.len() >= 2 {
                    filename matches Some(f) && f@ == ts[1]
                } else {
                    filename is None
                })
            } else {
                r is Unknown
            }
        }),
{
    let mut tokens = tokenize(input);
    if tokens.len() == 0 {
        return CommandAction::Nothing;
    }
    let first = &tokens[0];
    if token_is_1(first, 'q') {
        CommandAction::Quit
    } else if token_is_2(first, 'q', '!') {
        CommandAction::ForceQuit
    } else if token_is_1(first, 'w') {
        CommandAction::Write
    } else if token_is_2(first, 'w', 'q') {
        CommandAction::WriteQuit
    } else if token_is_1(first, 'e') || token_is_2(first, 'e', '!') {
        let force = token_is_2(first, 'e', '!');
        let filename = if tokens.len() >= 2 {
            let f = tokens.remove(1);
            Some(f)
        } else {
            None
        };
        CommandAction::Edit { filename, force }
    } else {
        CommandAction::Unknown
    }
}

/// The unsaved-changes guard: plain quit and plain edit/reload are refused
/// while changes are unsaved; forced variants, writes and everything else
/// pass. The caller reports the refusal as a warning instead of running the
/// command.
pub fn blocked_by_dirty(action: &CommandAction, dirty: bool) -> (r: bool)
    ensures
        r == (dirty && (action is Quit || (action matches CommandAction::Edit { force, .. }
            && force == false))),
{
    if !dirty {
        return false;
    }
    match action {
        CommandAction::Quit => true,
        CommandAction::Edit { force, .. } => if *force {
            false
        } else {
            true
        },
        _ => false,
    }
}

} // verus!
