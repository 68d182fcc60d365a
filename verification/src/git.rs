//! The pure side of the git integration: building the exact command lines
//! the tool runs, and parsing command output into file lists. Running the
//! commands is process I/O and lives outside the library.

use vstd::prelude::*;

use crate::text::char_index_of;
use crate::text::find_char;
use crate::text::lemma_char_index_of;
use crate::text::strs_view;
use crate::text::trim_spec;
use crate::text::trim_whitespace;

verus! {

// ---------------------------------------------------------------------------
// Quoting a path for a command line
// ---------------------------------------------------------------------------

/// How one character of a path is written inside a double-quoted shell
/// word: a double quote gets a backslash, everything else is kept.
pub open spec fn quote_esc_char(c: char) -> Seq<char> {
    if c == '"' {
        seq!['\\', '"']
    } else {
        seq![c]
    }
}

/// A path as written inside a double-quoted shell word.
pub open spec fn quote_esc(s: Seq<char>) -> Seq<char>
    decreases s.len(),
{
    if s.len() == 0 {
        Seq::empty()
    } else {
        quote_esc_char(s[0]) + quote_esc(s.drop_first())
    }
}

fn escape_quotes(s: &str) -> (r: String)
    ensures
        r@ == quote_esc(s@),
    decreases s@.len(),
{
    let n = s.unicode_len();
    if n == 0 {
        let r = String::new();
        proof {
            assert(r@ =~= quote_esc(s@));
        }
        r
    } else {
        let c = s.get_char(0);
        let rest = s.substring_char(1, n);
        proof {
            assert(rest@ =~= s@.drop_first());
        }
        let tail = escape_quotes(rest);
        let mut r = String::new();
        if c == '"' {
            crate::text::push_char(&mut r, '\\');
            crate::text::push_char(&mut r, '"');
        } else {
            crate::text::push_char(&mut r, c);
        }
        proof {
            assert(r@ =~= quote_esc_char(s@[0]));
        }
        r.append(tail.as_str());
        proof {
            assert(r@ =~= quote_esc(s@));
        }
        r
    }
}

/// The command that prints the numstat diff of one staged file.
pub open spec fn numstat_command_spec(file: Seq<char>) -> Seq<char> {
    "git diff --staged --numstat -- \""@ + quote_esc(file) + seq!['"']
}

/// The command that prints the unified diff of one staged file.
pub open spec fn unified_command_spec(file: Seq<char>) -> Seq<char> {
    "git diff --staged --unified=0 -- \""@ + quote_esc(file) + seq!['"']
}

/// Builds `git diff --staged --numstat -- "<file>"`, quotes escaped.
pub fn numstat_command(file: &str) -> (r: String)
    ensures
        r@ == numstat_command_spec(file@),
{
    let mut r = "git diff --staged --numstat -- \"".to_owned();
    let e = escape_quotes(file);
    r.append(e.as_str());
    crate::text::push_char(&mut r, '"');
    proof {
        assert(r@ =~= numstat_command_spec(file@));
    }
    r
}

/// Builds `git diff --staged --unified=0 -- "<file>"`, quotes escaped.
pub fn unified_command(file: &str) -> (r: String)
    ensures
        r@ == unified_command_spec(file@),
{
    let mut r = "git diff --staged --unified=0 -- \"".to_owned();
    let e = escape_quotes(file);
    r.append(e.as_str());
    crate::text::push_char(&mut r, '"');
    proof {
        assert(r@ =~= unified_command_spec(file@));
    }
    r
}

// ---------------------------------------------------------------------------
// Parsing the staged-file list
// ---------------------------------------------------------------------------

/// The staged files read from `git diff --staged --name-only` output: its
/// lines, trimmed, the empty ones dropped.
pub open spec fn staged_files_spec(s: Seq<char>) -> Seq<Seq<char>>
    decreases s.len(),
    via staged_files_decreases
{
    if s.len() == 0 {
        seq![]
    } else {
        let i = char_index_of(s, '\n');
        let line = trim_spec(s.take(i));
        let keep: Seq<Seq<char>> = if line.len() > 0 {
            seq![line]
        } else {
            seq![]
        };
        if i == s.len() {
            keep
        } else {
            keep + staged_files_spec(s.skip(i + 1))
        }
    }
}

#[via_fn]
proof fn staged_files_decreases(s: Seq<char>) {
    if s.len() > 0 {
        lemma_char_index_of(s, '\n');
    }
}

/// Parses `git diff --staged --name-only` output: one trimmed file name
/// per non-blank line, in order.
pub fn parse_staged_files(output: &str) -> (r: Vec<String>)
    ensures
        strs_view(r@) == staged_files_spec(output@),
    decreases output@.len(),
{
    let n = output.unicode_len();
    if n == 0 {
        let r: Vec<String> = Vec::new();
        proof {
            assert(strs_view(r@) =~= staged_files_spec(output@));
        }
        return r;
    }
    let i = find_char(output, '\n');
    let seg = output.substring_char(0, i);
    proof {
        assert(seg@ =~= output@.take(i as int));
    }
    let line = trim_whitespace(seg);
    let keep = line.as_str().unicode_len() > 0;
    let mut r: Vec<String> = Vec::new();
    if keep {
        r.push(line);
    }
    if i == n {
        proof {
            assert(strs_view(r@) =~= staged_files_spec(output@));
        }
        r
    } else {
        let rest_str = output.substring_char(i + 1, n);
        proof {
            assert(rest_str@ =~= output@.skip(i + 1));
        }
        let mut rest = parse_staged_files(rest_str);
        let ghost before = r@;
        r.append(&mut rest);
        proof {
            assert(forall|j: int|
                0 <= j < before.len() ==> r@[j]@ == #[trigger] strs_view(before)[j]);
            assert(strs_view(r@) =~= staged_files_spec(output@));
        }
        r
    }
}

} // verus!
