//! Summarizing staged changes: one short descriptor per file, and a
//! size-bounded JSON payload over the whole change set.
//!
//! The compressor emits `{"files":[{"f":<path>,"c":<descriptor>}, ...]}`
//! within a byte budget, degrading descriptor fidelity (full text, then 12,
//! 6, 3 and 1 characters) and then the number of files kept, and falling
//! back to a minimal payload when nothing fits.

use vstd::prelude::*;

use crate::byte_size;
use crate::text::char_index_of;
use crate::text::collapse_whitespace;
use crate::text::collapse_ws;
use crate::text::dec_str;
use crate::text::find_char;
use crate::text::join_nl;
use crate::text::lemma_char_index_of;
use crate::text::parse_usize;
use crate::text::parsed_count;
use crate::text::push_char;
use crate::text::trim_spec;
use crate::text::trim_whitespace;
use crate::text::usize_to_string;

verus! {

broadcast use vstd::string::group_string_axioms;

/// One staged file and the short descriptor of its change.
#[derive(Debug, Clone)]
pub struct FileChange {
    pub file: String,
    pub change: String,
}

/// The mathematical view of a `FileChange`: the two strings' characters.
pub struct FileChangeView {
    pub file: Seq<char>,
    pub change: Seq<char>,
}

impl View for FileChange {
    type V = FileChangeView;

    open spec fn view(&self) -> FileChangeView {
        FileChangeView { file: self.file@, change: self.change@ }
    }
}

/// The views of a sequence of file changes, in order.
pub open spec fn fc_views(s: Seq<FileChange>) -> Seq<FileChangeView> {
    s.map_values(|fc: FileChange| fc@)
}

// ---------------------------------------------------------------------------
// Escaping
// ---------------------------------------------------------------------------

/// How one character is written inside a JSON string field: backslash,
/// double quote, newline and carriage return are escaped, all else is kept.
pub open spec fn esc_char(c: char) -> Seq<char> {
    if c == '\\' {
        seq!['\\', '\\']
    } else if c == '"' {
        seq!['\\', '"']
    } else if c == '\n' {
        seq!['\\', 'n']
    } else if c == '\r' {
        seq!['\\', 'r']
    } else {
        seq![c]
    }
}

/// A string as written inside a JSON string field.
pub open spec fn esc(s: Seq<char>) -> Seq<char>
    decreases s.len(),
{
    if s.len() == 0 {
        Seq::empty()
    } else {
        esc_char(s[0]) + esc(s.drop_first())
    }
}

/// Escapes backslash, double quote, newline and carriage return.
pub fn escape_json(s: &str) -> (r: String)
    ensures
        r@ == esc(s@),
    decreases s@.len(),
{
    let n = s.unicode_len();
    if n == 0 {
        let r = String::new();
        proof {
            assert(r@ =~= esc(s@));
        }
        r
    } else {
        let c = s.get_char(0);
        let rest = s.substring_char(1, n);
        proof {
            assert(rest@ =~= s@.drop_first());
        }
        let tail = escape_json(rest);
        let mut r = String::new();
        if c == '\\' {
            push_char(&mut r, '\\');
            push_char(&mut r, '\\');
        } else if c == '"' {
            push_char(&mut r, '\\');
            push_char(&mut r, '"');
        } else if c == '\n' {
            push_char(&mut r, '\\');
            push_char(&mut r, 'n');
        } else if c == '\r' {
            push_char(&mut r, '\\');
            push_char(&mut r, 'r');
        } else {
            push_char(&mut r, c);
        }
        proof {
            assert(r@ =~= esc_char(s@[0]));
        }
        r.append(tail.as_str());
        proof {
            assert(r@ =~= esc(s@));
        }
        r
    }
}

/// The inverse reading of an escaped string: a backslash and the character
/// after it decode to one character, everything else stands for itself.
pub open spec fn unesc(s: Seq<char>) -> Seq<char>
    decreases s.len(),
{
    if s.len() == 0 {
        Seq::empty()
    } else if s[0] == '\\' && s.len() >= 2 {
        let d = if s[1] == 'n' {
            '\n'
        } else if s[1] == 'r' {
            '\r'
        } else {
            s[1]
        };
        seq![d] + unesc(s.skip(2))
    } else {
        seq![s[0]] + unesc(s.drop_first())
    }
}

/// Law: escaping round-trips. Reading an escaped string back yields the
/// original, for every string, so the escaped form loses nothing.
pub proof fn lemma_escape_round_trip(s: Seq<char>)
    ensures
        unesc(esc(s)) == s,
    decreases s.len(),
{
    if s.len() == 0 {
        assert(unesc(esc(s)) =~= s);
    } else {
        lemma_escape_round_trip(s.drop_first());
        let e = esc(s);
        let c = s[0];
        if c == '\\' || c == '"' || c == '\n' || c == '\r' {
            assert(e =~= esc_char(c) + esc(s.drop_first()));
            assert(e[0] == '\\');
            assert(e.skip(2) =~= esc(s.drop_first()));
            assert(unesc(e) =~= seq![c] + unesc(esc(s.drop_first())));
            assert(unesc(esc(s)) =~= s);
        } else {
            assert(e =~= seq![c] + esc(s.drop_first()));
            assert(e.drop_first() =~= esc(s.drop_first()));
            assert(unesc(e) =~= seq![c] + unesc(esc(s.drop_first())));
            assert(unesc(esc(s)) =~= s);
        }
    }
}

/// Law: an escaped string contains no raw newline or carriage return, so
/// the emitted payload stays on one line.
pub proof fn lemma_escape_no_raw_controls(s: Seq<char>)
    ensures
        forall|i: int| 0 <= i < esc(s).len() ==> esc(s)[i] != '\n' && esc(s)[i] != '\r',
    decreases s.len(),
{
    if s.len() > 0 {
        lemma_escape_no_raw_controls(s.drop_first());
        assert forall|i: int| 0 <= i < esc(s).len() implies esc(s)[i] != '\n' && esc(s)[i]
            != '\r' by {
            if i >= esc_char(s[0]).len() {
                assert(esc(s)[i] == esc(s.drop_first())[i - esc_char(s[0]).len()]);
            }
        }
    }
}

/// Law: every double quote in an escaped string has a backslash directly
/// before it, and an escaped string never starts with a double quote, so
/// an emitted field never closes early.
pub proof fn lemma_escape_quotes_escaped(s: Seq<char>)
    ensures
        forall|i: int|
            0 < i < esc(s).len() && #[trigger] esc(s)[i] == '"' ==> esc(s)[i - 1] == '\\',
        esc(s).len() > 0 ==> esc(s)[0] != '"',
    decreases s.len(),
{
    if s.len() > 0 {
        lemma_escape_quotes_escaped(s.drop_first());
        let u = esc_char(s[0]);
        let t = esc(s.drop_first());
        assert forall|i: int| 0 < i < esc(s).len() && #[trigger] esc(s)[i] == '"' implies esc(
            s,
        )[i - 1] == '\\' by {
            if i < u.len() {
                assert(esc(s)[i] == u[i]);
                assert(esc(s)[i - 1] == u[i - 1]);
            } else {
                assert(esc(s)[i] == t[i - u.len()]);
                if i - u.len() == 0 {
                    if t.len() > 0 {
                        assert(t[0] != '"');
                    }
                } else {
                    assert(esc(s)[i - 1] == t[i - u.len() - 1]);
                }
            }
        }
    }
}

// ---------------------------------------------------------------------------
// The payload shape
// ---------------------------------------------------------------------------

/// The opening of the payload: `{"files":[`.
pub open spec fn json_head() -> Seq<char> {
    seq!['{', '"', 'f', 'i', 'l', 'e', 's', '"', ':', '[']
}

/// The closing of the payload: `]}`.
pub open spec fn json_tail() -> Seq<char> {
    seq![']', '}']
}

/// The payload of an empty change set: `{"files":[]}`.
pub open spec fn json_empty() -> Seq<char> {
    json_head() + json_tail()
}

/// The character cap of a fidelity level below full text.
pub open spec fn level_cap(level: int) -> int {
    if level == 1 {
        12
    } else if level == 2 {
        6
    } else if level == 3 {
        3
    } else {
        1
    }
}

/// A descriptor at the given fidelity level: full text at level 0,
/// truncation to the level's cap in characters otherwise.
pub open spec fn level_trunc(c: Seq<char>, level: int) -> Seq<char> {
    if level == 0 {
        c
    } else if c.len() <= level_cap(level) {
        c
    } else {
        c.take(level_cap(level))
    }
}

/// One file's entry: `{"f":<escaped path>,"c":<escaped descriptor>}`.
pub open spec fn item_json(fc: FileChangeView, level: int) -> Seq<char> {
    seq!['{', '"', 'f', '"', ':', '"'] + esc(fc.file) + seq!['"', ',', '"', 'c', '"', ':', '"']
        + esc(level_trunc(fc.change, level)) + seq!['"', '}']
}

/// The comma-separated entries of a change set.
pub open spec fn items_json(v: Seq<FileChangeView>, level: int) -> Seq<char>
    decreases v.len(),
{
    if v.len() == 0 {
        Seq::empty()
    } else if v.len() == 1 {
        item_json(v[0], level)
    } else {
        items_json(v.drop_last(), level) + seq![','] + item_json(v.last(), level)
    }
}

/// The full payload for the first `keep` changes at the given level.
pub open spec fn candidate(v: Seq<FileChangeView>, level: int, keep: int) -> Seq<char> {
    json_head() + items_json(v.take(keep), level) + json_tail()
}

/// Whether the payload for (level, keep) fits the byte budget.
pub open spec fn fits(v: Seq<FileChangeView>, budget: usize, level: int, keep: int) -> bool {
    byte_size(candidate(v, level, keep)) <= budget
}

/// The first fitting (level, keep) pair in scan order: levels from full
/// fidelity down, and within a level the file count from all files down
/// to one. `None` when nothing fits.
pub open spec fn find_fit(v: Seq<FileChangeView>, budget: usize, level: int, keep: int) -> Option<
    (int, int),
>
    decreases 5 - level, keep,
{
    if level >= 5 {
        None
    } else if keep <= 0 {
        find_fit(v, budget, level + 1, v.len() as int)
    } else if fits(v, budget, level, keep) {
        Some((level, keep))
    } else {
        find_fit(v, budget, level, keep - 1)
    }
}

/// The index of the last '/' in a path, or -1 when there is none.
pub open spec fn last_slash(f: Seq<char>) -> int
    decreases f.len(),
{
    if f.len() == 0 {
        -1
    } else if f.last() == '/' {
        f.len() - 1
    } else {
        last_slash(f.drop_last())
    }
}

pub proof fn lemma_last_slash_bounds(f: Seq<char>)
    ensures
        -1 <= last_slash(f) < f.len(),
    decreases f.len(),
{
    if f.len() > 0 && f.last() != '/' {
        lemma_last_slash_bounds(f.drop_last());
    }
}

/// The part of a path after its last '/': the whole path when it has none.
pub open spec fn basename(f: Seq<char>) -> Seq<char> {
    f.subrange(last_slash(f) + 1, f.len() as int)
}

/// The descriptor of the minimal payload.
pub open spec fn mod_chars() -> Seq<char> {
    seq!['m', 'o', 'd']
}

/// The change set of the minimal payload: the first file's basename with
/// the descriptor forced to `mod`.
pub open spec fn minimal_view(v: Seq<FileChangeView>) -> Seq<FileChangeView> {
    seq![FileChangeView { file: basename(v[0].file), change: mod_chars() }]
}

/// The minimal payload, emitted when no (level, keep) pair fits.
pub open spec fn spec_minimal(v: Seq<FileChangeView>) -> Seq<char> {
    candidate(minimal_view(v), 0, 1)
}

/// What the compressor returns: the empty payload for an empty change set,
/// the first fitting candidate otherwise, and the minimal payload when
/// nothing fits.
pub open spec fn spec_compress(v: Seq<FileChangeView>, budget: usize) -> Seq<char> {
    if v.len() == 0 {
        json_empty()
    } else {
        match find_fit(v, budget, 0, v.len() as int) {
            Some(p) => candidate(v, p.0, p.1),
            None => spec_minimal(v),
        }
    }
}

// ---------------------------------------------------------------------------
// Building payloads
// ---------------------------------------------------------------------------

fn truncate_descriptor(c: &str, level: usize) -> (r: String)
    requires
        level < 5,
    ensures
        r@ == level_trunc(c@, level as int),
{
    if level == 0 {
        c.to_owned()
    } else {
        let cap: usize = if level == 1 {
            12
        } else if level == 2 {
            6
        } else if level == 3 {
            3
        } else {
            1
        };
        let n = c.unicode_len();
        if n <= cap {
            c.to_owned()
        } else {
            let t = c.substring_char(0, cap);
            proof {
                assert(t@ =~= c@.take(cap as int));
            }
            t.to_owned()
        }
    }
}

fn build_item(fc: &FileChange, level: usize) -> (r: String)
    requires
        level < 5,
    ensures
        r@ == item_json(fc@, level as int),
{
    let mut r = String::new();
    r.append("{\"f\":\"");
    proof {
        reveal_strlit("{\"f\":\"");
        assert(r@ =~= seq!['{', '"', 'f', '"', ':', '"']);
    }
    let ef = escape_json(fc.file.as_str());
    r.append(ef.as_str());
    r.append("\",\"c\":\"");
    proof {
        reveal_strlit("\",\"c\":\"");
        assert("\",\"c\":\""@ =~= seq!['"', ',', '"', 'c', '"', ':', '"']);
    }
    let t = truncate_descriptor(fc.change.as_str(), level);
    let ec = escape_json(t.as_str());
    r.append(ec.as_str());
    r.append("\"}");
    proof {
        reveal_strlit("\"}");
        assert("\"}"@ =~= seq!['"', '}']);
        assert(r@ =~= item_json(fc@, level as int));
    }
    r
}

fn serialize_prefix(changes: &[FileChange], keep: usize, level: usize) -> (r: String)
    requires
        level < 5,
        keep <= changes@.len(),
    ensures
        r@ == candidate(fc_views(changes@), level as int, keep as int),
{
    let ghost v = fc_views(changes@);
    let mut r = String::new();
    r.append("{\"files\":[");
    proof {
        reveal_strlit("{\"files\":[");
        assert(r@ =~= json_head());
        assert(v.take(0) =~= Seq::<FileChangeView>::empty());
    }
    let mut i: usize = 0;
    while i < keep
        invariant
            i <= keep,
            keep <= changes@.len(),
            level < 5,
            v == fc_views(changes@),
            r@ == json_head() + items_json(v.take(i as int), level as int),
        decreases keep - i,
    {
        if i > 0 {
            r.append(",");
            proof {
                reveal_strlit(",");
                assert(","@ =~= seq![',']);
            }
        }
        let item = build_item(&changes[i], level);
        r.append(item.as_str());
        proof {
            assert(v.take(i + 1).drop_last() =~= v.take(i as int));
            assert(v.take(i + 1).last() == v[i as int]);
            assert(v[i as int] == changes@[i as int]@);
            assert(r@ =~= json_head() + items_json(v.take(i + 1), level as int));
        }
        i = i + 1;
    }
    r.append("]}");
    proof {
        reveal_strlit("]}");
        assert("]}"@ =~= json_tail());
        assert(r@ =~= candidate(v, level as int, keep as int));
    }
    r
}

/// The part of a path after its last '/'.
pub fn basename_of(f: &str) -> (r: String)
    ensures
        r@ == basename(f@),
{
    let n = f.unicode_len();
    let mut i: usize = n;
    proof {
        assert(f@.take(n as int) =~= f@);
    }
    while i >= 1
        invariant
            i <= n,
            n == f@.len(),
            last_slash(f@) == last_slash(f@.take(i as int)),
        decreases i,
    {
        let c = f.get_char(i - 1);
        proof {
            assert(f@.take(i as int).last() == f@[i - 1]);
        }
        if c == '/' {
            proof {
                assert(last_slash(f@) == i - 1);
                lemma_last_slash_bounds(f@);
            }
            let r = f.substring_char(i, n);
            proof {
                assert(r@ =~= basename(f@));
            }
            return r.to_owned();
        }
        proof {
            assert(f@.take(i as int).drop_last() =~= f@.take(i - 1));
        }
        i = i - 1;
    }
    proof {
        assert(f@.take(0) =~= Seq::<char>::empty());
        assert(last_slash(f@) == -1);
        assert(f@.subrange(0, n as int) =~= f@);
    }
    f.to_owned()
}

// ---------------------------------------------------------------------------
// The compressor
// ---------------------------------------------------------------------------

/// Serializes the change set as `{"files":[{"f":<path>,"c":<descriptor>},
/// ...]}` within `max_len` bytes, trying fidelity levels from full text
/// down to one character and, within a level, keeping the longest possible
/// prefix of the files. An empty change set gives `{"files":[]}`; when not
/// even one file at the lowest fidelity fits, the result is the minimal
/// payload: the first file's basename with descriptor `mod`.
///
/// The result is a function of the change set and the budget alone, so two
/// calls on the same input always return the same payload.
pub fn compress_to_json(file_changes: &[FileChange], max_len: usize) -> (r: String)
    ensures
        r@ == spec_compress(fc_views(file_changes@), max_len),
        file_changes@.len() == 0 ==> r@ == json_empty(),
        file_changes@.len() > 0 && byte_size(spec_minimal(fc_views(file_changes@))) <= max_len
            ==> byte_size(r@) <= max_len,
{
    let n = file_changes.len();
    let ghost v = fc_views(file_changes@);
    if n == 0 {
        let r = "{\"files\":[]}".to_owned();
        proof {
            reveal_strlit("{\"files\":[]}");
            assert(r@ =~= json_empty());
        }
        return r;
    }
    let mut level: usize = 0;
    while level < 5
        invariant
            n == v.len(),
            v == fc_views(file_changes@),
            n >= 1,
            level <= 5,
            find_fit(v, max_len, 0, n as int) == find_fit(v, max_len, level as int, n as int),
        decreases 5 - level,
    {
        let mut keep: usize = n;
        while keep >= 1
            invariant
                n == v.len(),
                v == fc_views(file_changes@),
                n >= 1,
                level < 5,
                keep <= n,
                find_fit(v, max_len, 0, n as int) == find_fit(v, max_len, level as int, keep as int),
            decreases keep,
        {
            let cand = serialize_prefix(file_changes, keep, level);
            let sz = cand.as_str().len();
            if sz <= max_len {
                proof {
                    assert(fits(v, max_len, level as int, keep as int));
                    assert(find_fit(v, max_len, level as int, keep as int) == Some(
                        (level as int, keep as int),
                    ));
                }
                return cand;
            }
            proof {
                assert(!fits(v, max_len, level as int, keep as int));
                assert(find_fit(v, max_len, level as int, keep as int) == find_fit(
                    v,
                    max_len,
                    level as int,
                    keep - 1,
                ));
            }
            keep = keep - 1;
        }
        proof {
            assert(find_fit(v, max_len, level as int, 0) == find_fit(
                v,
                max_len,
                level + 1,
                n as int,
            ));
        }
        level = level + 1;
    }
    proof {
        assert(find_fit(v, max_len, 5, n as int) is None);
    }
    // nothing fits: minimal payload from the first file's basename
    let base = basename_of(file_changes[0].file.as_str());
    let min_fc = FileChange { file: base, change: "mod".to_owned() };
    let mut mv: Vec<FileChange> = Vec::new();
    mv.push(min_fc);
    let r = serialize_prefix(mv.as_slice(), 1, 0);
    proof {
        reveal_strlit("mod");
        assert("mod"@ =~= mod_chars());
        assert(fc_views(mv@) =~= minimal_view(v));
        assert(fc_views(mv@).take(1) =~= minimal_view(v).take(1));
        assert(r@ == spec_minimal(v));
    }
    r
}

// ---------------------------------------------------------------------------
// Descriptors from diff output
// ---------------------------------------------------------------------------

/// The descriptor for an empty diff.
pub open spec fn unchanged_chars() -> Seq<char> {
    seq!['u', 'n', 'c', 'h', 'a', 'n', 'g', 'e', 'd']
}

/// A line without one trailing carriage return.
pub open spec fn strip_cr(line: Seq<char>) -> Seq<char> {
    if line.len() > 0 && line.last() == '\r' {
        line.drop_last()
    } else {
        line
    }
}

/// The first line of a text: everything before the first newline, without
/// a trailing carriage return.
pub open spec fn first_line(s: Seq<char>) -> Seq<char> {
    strip_cr(s.take(char_index_of(s, '\n')))
}

/// The value of one numstat count field: `-` (the binary-file marker)
/// counts as 0, as does anything that is not a plain decimal number.
pub open spec fn count_field(f: Seq<char>) -> usize {
    if f == seq!['-'] {
        0
    } else {
        parsed_count(f)
    }
}

/// The descriptor read from `git diff --staged --numstat` output for one
/// file: `unchanged` for an empty diff; `<added>+/<removed>−` when the
/// first line is a tab-separated triple; `mod` when it is not.
pub open spec fn numstat_descriptor(diff: Seq<char>) -> Seq<char> {
    if diff.len() == 0 {
        unchanged_chars()
    } else {
        let line = first_line(diff);
        let t1 = char_index_of(line, '\t');
        if t1 == line.len() {
            mod_chars()
        } else {
            let rest = line.skip(t1 + 1);
            let t2 = char_index_of(rest, '\t');
            if t2 == rest.len() {
                mod_chars()
            } else {
                dec_str(count_field(line.take(t1)) as nat) + seq!['+', '/'] + dec_str(
                    count_field(rest.take(t2)) as nat,
                ) + seq!['−']
            }
        }
    }
}

/// Whether a count field is the binary-file marker `-`.
fn is_dash_field(f: &str) -> (r: bool)
    ensures
        r == (f@ == seq!['-']),
{
    let n = f.unicode_len();
    if n == 1 && f.get_char(0) == '-' {
        proof {
            assert(f@ =~= seq!['-']);
        }
        true
    } else {
        proof {
            assert(f@ != seq!['-']);
        }
        false
    }
}

fn parse_count_field(f: &str) -> (r: usize)
    ensures
        r == count_field(f@),
{
    if is_dash_field(f) {
        0
    } else {
        parse_usize(f)
    }
}

/// Turns `git diff --staged --numstat` output into a short descriptor:
/// `unchanged` for an empty diff, `<added>+/<removed>−` when the first
/// line is a tab-separated `added removed path` triple (a `-` field counts
/// as 0), and `mod` when the triple cannot be read.
pub fn descriptor_from_numstat(diff: &str) -> (r: String)
    ensures
        r@ == numstat_descriptor(diff@),
{
    let n = diff.unicode_len();
    if n == 0 {
        let r = "unchanged".to_owned();
        proof {
            reveal_strlit("unchanged");
            assert(r@ =~= unchanged_chars());
        }
        return r;
    }
    let nl = find_char(diff, '\n');
    let line0 = diff.substring_char(0, nl);
    proof {
        assert(line0@ =~= diff@.take(nl as int));
    }
    let l0 = line0.unicode_len();
    let line = if l0 > 0 && line0.get_char(l0 - 1) == '\r' {
        let t = line0.substring_char(0, l0 - 1);
        proof {
            assert(t@ =~= line0@.drop_last());
        }
        t
    } else {
        line0
    };
    proof {
        assert(line@ == first_line(diff@));
    }
    let ll = line.unicode_len();
    let t1 = find_char(line, '\t');
    if t1 == ll {
        let r = "mod".to_owned();
        proof {
            reveal_strlit("mod");
            assert(r@ =~= mod_chars());
        }
        return r;
    }
    let rest = line.substring_char(t1 + 1, ll);
    proof {
        assert(rest@ =~= line@.skip(t1 + 1));
    }
    let rl = rest.unicode_len();
    let t2 = find_char(rest, '\t');
    if t2 == rl {
        let r = "mod".to_owned();
        proof {
            reveal_strlit("mod");
            assert(r@ =~= mod_chars());
        }
        return r;
    }
    let f0 = line.substring_char(0, t1);
    let f1 = rest.substring_char(0, t2);
    proof {
        assert(f0@ =~= line@.take(t1 as int));
        assert(f1@ =~= rest@.take(t2 as int));
    }
    let added = parse_count_field(f0);
    let removed = parse_count_field(f1);
    let mut r = usize_to_string(added);
    push_char(&mut r, '+');
    push_char(&mut r, '/');
    let rem = usize_to_string(removed);
    r.append(rem.as_str());
    push_char(&mut r, '−');
    proof {
        assert(r@ =~= numstat_descriptor(diff@));
    }
    r
}

/// The first line, trimmed, that is not blank; `None` when there is none.
pub open spec fn first_nonblank_line(s: Seq<char>) -> Option<Seq<char>>
    decreases s.len(),
    via first_nonblank_decreases
{
    if s.len() == 0 {
        None
    } else {
        let i = char_index_of(s, '\n');
        let line = trim_spec(s.take(i));
        if line.len() > 0 {
            Some(line)
        } else if i == s.len() {
            None
        } else {
            first_nonblank_line(s.skip(i + 1))
        }
    }
}

#[via_fn]
proof fn first_nonblank_decreases(s: Seq<char>) {
    if s.len() > 0 {
        lemma_char_index_of(s, '\n');
    }
}

/// The descriptor read from unified diff output: the first non-blank line,
/// trimmed, truncated to 40 characters, with internal whitespace runs
/// collapsed to single spaces; `mod` when every line is blank.
pub open spec fn unified_descriptor(hunks: Seq<char>) -> Seq<char> {
    match first_nonblank_line(hunks) {
        None => mod_chars(),
        Some(line) => collapse_ws(
            if line.len() <= 40 {
                line
            } else {
                line.take(40)
            },
        ),
    }
}

/// Turns unified diff output into a short descriptor: the first non-blank
/// line, trimmed, cut to 40 characters, whitespace runs collapsed; `mod`
/// when there is no non-blank line.
pub fn descriptor_from_unified(hunks: &str) -> (r: String)
    ensures
        r@ == unified_descriptor(hunks@),
    decreases hunks@.len(),
{
    let n = hunks.unicode_len();
    if n == 0 {
        let r = "mod".to_owned();
        proof {
            reveal_strlit("mod");
            assert(r@ =~= mod_chars());
        }
        return r;
    }
    let nl = find_char(hunks, '\n');
    let seg = hunks.substring_char(0, nl);
    proof {
        assert(seg@ =~= hunks@.take(nl as int));
    }
    let line = trim_whitespace(seg);
    let ll = line.as_str().unicode_len();
    if ll > 0 {
        let t = if ll <= 40 {
            line
        } else {
            let cut = line.as_str().substring_char(0, 40);
            proof {
                assert(cut@ =~= line@.take(40));
            }
            cut.to_owned()
        };
        let r = collapse_whitespace(t.as_str());
        return r;
    }
    if nl == n {
        let r = "mod".to_owned();
        proof {
            reveal_strlit("mod");
            assert(r@ =~= mod_chars());
        }
        return r;
    }
    let rest = hunks.substring_char(nl + 1, n);
    proof {
        assert(rest@ =~= hunks@.skip(nl + 1));
    }
    descriptor_from_unified(rest)
}

// ---------------------------------------------------------------------------
// The file-name list for the prompt
// ---------------------------------------------------------------------------

/// The newline-joined names of the first `k` files.
pub open spec fn file_names_spec(v: Seq<FileChangeView>, k: int) -> Seq<char> {
    join_nl(v.take(k).map_values(|fc: FileChangeView| fc.file))
}

/// The file names of the change set, at most the first 50, one per line.
pub fn file_names_list(changes: &[FileChange]) -> (r: String)
    ensures
        r@ == file_names_spec(
            fc_views(changes@),
            if changes@.len() <= 50 {
                changes@.len() as int
            } else {
                50
            },
        ),
{
    let ghost v = fc_views(changes@);
    let n = changes.len();
    let k = if n <= 50 {
        n
    } else {
        50
    };
    let mut r = String::new();
    let mut i: usize = 0;
    proof {
        assert(v.take(0).map_values(|fc: FileChangeView| fc.file) =~= Seq::<Seq<char>>::empty());
    }
    while i < k
        invariant
            i <= k,
            k <= changes@.len(),
            v == fc_views(changes@),
            r@ == join_nl(v.take(i as int).map_values(|fc: FileChangeView| fc.file)),
        decreases k - i,
    {
        if i > 0 {
            push_char(&mut r, '\n');
        }
        r.append(changes[i].file.as_str());
        proof {
            let names = v.take(i + 1).map_values(|fc: FileChangeView| fc.file);
            assert(names.drop_last() =~= v.take(i as int).map_values(
                |fc: FileChangeView| fc.file,
            ));
            assert(names.last() == changes@[i as int]@.file);
            assert(r@ =~= join_nl(names));
        }
        i = i + 1;
    }
    r
}

// ---------------------------------------------------------------------------
// Laws of the search order
// ---------------------------------------------------------------------------

/// Whether the pair (l1, k1) is tried before (l2, k2): a better fidelity
/// level, or the same level with more files kept.
pub open spec fn scanned_before(l1: int, k1: int, l2: int, k2: int) -> bool {
    l1 < l2 || (l1 == l2 && k1 > k2)
}

proof fn lemma_find_fit_first(v: Seq<FileChangeView>, b: usize, l: int, k: int)
    requires
        0 <= l <= 5,
        0 <= k <= v.len(),
    ensures
        match find_fit(v, b, l, k) {
            Some(p) => {
                &&& fits(v, b, p.0, p.1)
                &&& l <= p.0 < 5
                &&& 1 <= p.1 <= v.len()
                &&& (p.0 == l ==> p.1 <= k)
                &&& forall|l2: int, k2: int|
                    l <= l2 < 5 && 1 <= k2 <= v.len() && (l2 > l || k2 <= k) && scanned_before(
                        l2,
                        k2,
                        p.0,
                        p.1,
                    ) ==> !#[trigger] fits(v, b, l2, k2)
            },
            None => forall|l2: int, k2: int|
                l <= l2 < 5 && 1 <= k2 <= v.len() && (l2 > l || k2 <= k) ==> !#[trigger] fits(
                    v,
                    b,
                    l2,
                    k2,
                ),
        },
    decreases 5 - l, k,
{
    if l >= 5 {
    } else if k <= 0 {
        lemma_find_fit_first(v, b, l + 1, v.len() as int);
    } else if fits(v, b, l, k) {
    } else {
        lemma_find_fit_first(v, b, l, k - 1);
    }
}

/// Law: fidelity degrades monotonically. With a smaller budget the chosen
/// fidelity level is the same or lower (a higher level number), and at the
/// same level no more files are kept; and whenever the smaller budget has a
/// fitting payload at all, so does the larger.
pub proof fn lemma_fidelity_monotone(v: Seq<FileChangeView>, b1: usize, b2: usize)
    requires
        b1 <= b2,
        v.len() >= 1,
    ensures
        find_fit(v, b1, 0, v.len() as int) is Some ==> find_fit(v, b2, 0, v.len() as int) is Some,
        match (find_fit(v, b1, 0, v.len() as int), find_fit(v, b2, 0, v.len() as int)) {
            (Some(p1), Some(p2)) => p1.0 > p2.0 || (p1.0 == p2.0 && p1.1 <= p2.1),
            _ => true,
        },
{
    let n = v.len() as int;
    lemma_find_fit_first(v, b1, 0, n);
    lemma_find_fit_first(v, b2, 0, n);
    match find_fit(v, b1, 0, n) {
        Some(p1) => {
            assert(fits(v, b1, p1.0, p1.1));
            assert(fits(v, b2, p1.0, p1.1));
            match find_fit(v, b2, 0, n) {
                Some(p2) => {
                    if scanned_before(p1.0, p1.1, p2.0, p2.1) {
                        assert(!fits(v, b2, p1.0, p1.1));
                        assert(false);
                    }
                },
                None => {
                    assert(!fits(v, b2, p1.0, p1.1));
                    assert(false);
                },
            }
        },
        None => {},
    }
}

} // verus!

