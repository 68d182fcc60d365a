//! The tool's configuration: the stored values, their defaults, the
//! accessors, the masked display of the API key, and the rule that decides
//! which gitignore patterns still have to be appended.
//!
//! Reading and writing the configuration file is I/O and lives outside the
//! library; every function here works on a `Config` value.

use vstd::prelude::*;

use crate::text::char_index_of;
use crate::text::join_nl;
use crate::text::lemma_char_index_of;
use crate::text::find_char;
use crate::text::strs_view;
use crate::text::trim_spec;
use crate::text::trim_whitespace;
use crate::text::push_char;

verus! {

/// The stored configuration. A `None` field means "not set"; each accessor
/// says what an unset field defaults to.
#[derive(Debug, Clone)]
pub struct Config {
    pub api_key: Option<String>,
    pub selected_model: Option<String>,
    pub enable_gitmoji: Option<bool>,
    pub update_gitignore: Option<bool>,
    pub gitignore_patterns: Option<Vec<String>>,
}

/// The view of an optional string.
pub open spec fn opt_str_view(o: Option<String>) -> Option<Seq<char>> {
    match o {
        Some(s) => Some(s@),
        None => None,
    }
}

/// The view of an optional list of strings.
pub open spec fn opt_strs_view(o: Option<Vec<String>>) -> Option<Seq<Seq<char>>> {
    match o {
        Some(v) => Some(strs_view(v@)),
        None => None,
    }
}

/// The model used when none is selected.
pub open spec fn default_model_name() -> Seq<char> {
    "gpt-4o-mini"@
}

/// The gitignore patterns used when none are stored.
pub open spec fn default_patterns() -> Seq<Seq<char>> {
    seq!["*.env*"@, ".env*"@, "docx/"@, ".docx/"@]
}

fn default_gitignore_patterns() -> (r: Vec<String>)
    ensures
        strs_view(r@) == default_patterns(),
{
    let mut r: Vec<String> = Vec::new();
    r.push("*.env*".to_owned());
    r.push(".env*".to_owned());
    r.push("docx/".to_owned());
    r.push(".docx/".to_owned());
    proof {
        assert(strs_view(r@) =~= default_patterns());
    }
    r
}

impl Default for Config {
    /// The default configuration: no API key, the default model, gitmoji
    /// and gitignore updating off, and the default gitignore patterns.
    fn default() -> (c: Config)
        ensures
            c.api_key is None,
            opt_str_view(c.selected_model) == Some(default_model_name()),
            c.enable_gitmoji == Some(false),
            c.update_gitignore == Some(false),
            opt_strs_view(c.gitignore_patterns) == Some(default_patterns()),
    {
        Config {
            api_key: None,
            selected_model: Some("gpt-4o-mini".to_owned()),
            enable_gitmoji: Some(false),
            update_gitignore: Some(false),
            gitignore_patterns: Some(default_gitignore_patterns()),
        }
    }
}

// ---------------------------------------------------------------------------
// Accessors
// ---------------------------------------------------------------------------

/// The stored API key, when one is set.
pub fn get_api_key(config: &Config) -> (r: Option<String>)
    ensures
        r == config.api_key,
{
    match &config.api_key {
        Some(k) => Some(k.clone()),
        None => None,
    }
}

/// Stores the API key; the other fields are untouched.
pub fn set_api_key(config: &mut Config, key: String)
    ensures
        final (config).api_key == Some(key),
        final (config).selected_model == old(config).selected_model,
        final (config).enable_gitmoji == old(config).enable_gitmoji,
        final (config).update_gitignore == old(config).update_gitignore,
        final (config).gitignore_patterns == old(config).gitignore_patterns,
{
    config.api_key = Some(key);
}

/// The selected model, or the default model when none is selected.
pub fn get_selected_model(config: &Config) -> (r: String)
    ensures
        r@ == match config.selected_model {
            Some(m) => m@,
            None => default_model_name(),
        },
{
    match &config.selected_model {
        Some(m) => m.clone(),
        None => "gpt-4o-mini".to_owned(),
    }
}

/// Stores the selected model; the other fields are untouched.
pub fn set_selected_model(config: &mut Config, model: String)
    ensures
        final (config).selected_model == Some(model),
        final (config).api_key == old(config).api_key,
        final (config).enable_gitmoji == old(config).enable_gitmoji,
        final (config).update_gitignore == old(config).update_gitignore,
        final (config).gitignore_patterns == old(config).gitignore_patterns,
{
    config.selected_model = Some(model);
}

/// Whether gitmoji decoration is on; off when the field is unset.
pub fn is_gitmoji_enabled(config: &Config) -> (r: bool)
    ensures
        r == match config.enable_gitmoji {
            Some(b) => b,
            None => false,
        },
{
    match config.enable_gitmoji {
        Some(b) => b,
        None => false,
    }
}

/// Turns gitmoji decoration on or off; the other fields are untouched.
pub fn set_gitmoji_enabled(config: &mut Config, enabled: bool)
    ensures
        final (config).enable_gitmoji == Some(enabled),
        final (config).api_key == old(config).api_key,
        final (config).selected_model == old(config).selected_model,
        final (config).update_gitignore == old(config).update_gitignore,
        final (config).gitignore_patterns == old(config).gitignore_patterns,
{
    config.enable_gitmoji = Some(enabled);
}

/// Flips gitmoji decoration: an unset field counts as off, so it turns on.
pub fn toggle_gitmoji(config: &mut Config)
    ensures
        final (config).enable_gitmoji == Some(
            !match old(config).enable_gitmoji {
                Some(b) => b,
                None => false,
            },
        ),
        final (config).api_key == old(config).api_key,
        final (config).selected_model == old(config).selected_model,
        final (config).update_gitignore == old(config).update_gitignore,
        final (config).gitignore_patterns == old(config).gitignore_patterns,
{
    let current = is_gitmoji_enabled(config);
    config.enable_gitmoji = Some(!current);
}

fn clone_strings(v: &Vec<String>) -> (r: Vec<String>)
    ensures
        strs_view(r@) == strs_view(v@),
{
    let mut r: Vec<String> = Vec::new();
    let n = v.len();
    let mut i: usize = 0;
    while i < n
        invariant
            i <= n,
            n == v@.len(),
            r@.len() == i,
            forall|j: int| 0 <= j < i ==> r@[j]@ == v@[j]@,
        decreases n - i,
    {
        r.push(v[i].clone());
        i = i + 1;
    }
    proof {
        assert(strs_view(r@) =~= strs_view(v@));
    }
    r
}

/// The stored gitignore patterns, or the default ones when unset.
pub fn get_gitignore_patterns(config: &Config) -> (r: Vec<String>)
    ensures
        strs_view(r@) == match config.gitignore_patterns {
            Some(v) => strs_view(v@),
            None => default_patterns(),
        },
{
    match &config.gitignore_patterns {
        Some(v) => clone_strings(v),
        None => default_gitignore_patterns(),
    }
}

// ---------------------------------------------------------------------------
// Masking the API key for display
// ---------------------------------------------------------------------------

/// The API key as displayed: its first and last four characters around
/// `...` when it is longer than eight characters, `****` otherwise.
pub open spec fn masked_key(k: Seq<char>) -> Seq<char> {
    if k.len() > 8 {
        k.take(4) + "..."@ + k.skip(k.len() - 4)
    } else {
        "****"@
    }
}

/// Masks an API key for display.
pub fn mask_api_key(key: &str) -> (r: String)
    ensures
        r@ == masked_key(key@),
{
    let n = key.unicode_len();
    if n > 8 {
        let head = key.substring_char(0, 4);
        let mut r = head.to_owned();
        r.append("...");
        let tail = key.substring_char(n - 4, n);
        r.append(tail);
        proof {
            assert(r@ =~= masked_key(key@));
        }
        r
    } else {
        "****".to_owned()
    }
}

// ---------------------------------------------------------------------------
// Gitignore safety
// ---------------------------------------------------------------------------

/// The lines of a gitignore file that count as existing entries: trimmed,
/// non-empty, and not comments.
pub open spec fn effective_lines(s: Seq<char>) -> Seq<Seq<char>>
    decreases s.len(),
    via effective_lines_decreases
{
    if s.len() == 0 {
        seq![]
    } else {
        let i = char_index_of(s, '\n');
        let line = trim_spec(s.take(i));
        let keep: Seq<Seq<char>> = if line.len() > 0 && line[0] != '#' {
            seq![line]
        } else {
            seq![]
        };
        if i == s.len() {
            keep
        } else {
            keep + effective_lines(s.skip(i + 1))
        }
    }
}

#[via_fn]
proof fn effective_lines_decreases(s: Seq<char>) {
    if s.len() > 0 {
        lemma_char_index_of(s, '\n');
    }
}

/// The patterns that do not yet stand in the file, in their given order.
pub open spec fn missing_patterns(existing: Seq<char>, pats: Seq<Seq<char>>) -> Seq<Seq<char>>
    decreases pats.len(),
{
    if pats.len() == 0 {
        seq![]
    } else {
        missing_patterns(existing, pats.drop_last()) + (if effective_lines(existing).contains(
            pats.last(),
        ) {
            seq![]
        } else {
            seq![pats.last()]
        })
    }
}

/// The comment written above each appended pattern.
pub open spec fn comment_prefix() -> Seq<char> {
    "# Added by Autocommiter: ensure "@
}

/// For each missing pattern, its comment line and the pattern itself.
pub open spec fn append_lines(ms: Seq<Seq<char>>) -> Seq<Seq<char>>
    decreases ms.len(),
{
    if ms.len() == 0 {
        seq![]
    } else {
        append_lines(ms.drop_last()) + seq![comment_prefix() + ms.last(), ms.last()]
    }
}

/// The new gitignore contents, or `None` when every pattern is present:
/// the missing patterns, each under a comment, appended to the existing
/// contents (or standing alone when the file is blank), ending in a
/// newline.
pub open spec fn gitignore_update_spec(existing: Seq<char>, pats: Seq<Seq<char>>) -> Option<
    Seq<char>,
> {
    let ms = missing_patterns(existing, pats);
    if ms.len() == 0 {
        None
    } else {
        let body = join_nl(append_lines(ms)) + seq!['\n'];
        Some(
            if trim_spec(existing).len() == 0 {
                body
            } else {
                existing + seq!['\n'] + body
            },
        )
    }
}

fn effective_lines_exec(s: &str) -> (r: Vec<String>)
    ensures
        strs_view(r@) == effective_lines(s@),
    decreases s@.len(),
{
    let n = s.unicode_len();
    if n == 0 {
        let r: Vec<String> = Vec::new();
        proof {
            assert(strs_view(r@) =~= effective_lines(s@));
        }
        return r;
    }
    let i = find_char(s, '\n');
    let seg = s.substring_char(0, i);
    proof {
        assert(seg@ =~= s@.take(i as int));
    }
    let line = trim_whitespace(seg);
    let ll = line.as_str().unicode_len();
    let keep = ll > 0 && line.as_str().get_char(0) != '#';
    let mut r: Vec<String> = Vec::new();
    if keep {
        r.push(line);
    }
    if i == n {
        proof {
            assert(strs_view(r@) =~= effective_lines(s@));
        }
        r
    } else {
        let rest_str = s.substring_char(i + 1, n);
        proof {
            assert(rest_str@ =~= s@.skip(i + 1));
        }
        let mut rest = effective_lines_exec(rest_str);
        let ghost before = r@;
        r.append(&mut rest);
        proof {
            assert(forall|j: int|
                0 <= j < before.len() ==> r@[j]@ == #[trigger] strs_view(before)[j]);
            assert(strs_view(r@) =~= effective_lines(s@));
        }
        r
    }
}

fn contains_string(v: &Vec<String>, s: &String) -> (r: bool)
    ensures
        r == strs_view(v@).contains(s@),
{
    let n = v.len();
    let mut i: usize = 0;
    while i < n
        invariant
            i <= n,
            n == v@.len(),
            forall|j: int| 0 <= j < i ==> strs_view(v@)[j] != s@,
        decreases n - i,
    {
        if v[i].eq(s) {
            proof {
                assert(strs_view(v@)[i as int] == s@);
            }
            return true;
        }
        i = i + 1;
    }
    false
}

/// The new gitignore contents when patterns are missing from it, and
/// `None` when they are all already there. Each missing pattern is
/// appended under a comment naming it; a blank file is replaced outright.
pub fn gitignore_update(existing: &str, patterns: &Vec<String>) -> (r: Option<String>)
    ensures
        opt_str_view(r) == gitignore_update_spec(existing@, strs_view(patterns@)),
{
    let ghost pats = strs_view(patterns@);
    let lines = effective_lines_exec(existing);
    let mut missing: Vec<String> = Vec::new();
    let np = patterns.len();
    let mut i: usize = 0;
    proof {
        assert(pats.take(0) =~= Seq::<Seq<char>>::empty());
        assert(strs_view(missing@) =~= missing_patterns(existing@, pats.take(0)));
    }
    while i < np
        invariant
            i <= np,
            np == patterns@.len(),
            pats == strs_view(patterns@),
            strs_view(lines@) == effective_lines(existing@),
            strs_view(missing@) == missing_patterns(existing@, pats.take(i as int)),
        decreases np - i,
    {
        proof {
            assert(pats.take(i + 1).drop_last() =~= pats.take(i as int));
            assert(pats.take(i + 1).last() == patterns@[i as int]@);
        }
        if !contains_string(&lines, &patterns[i]) {
            let ghost before = missing@;
            missing.push(patterns[i].clone());
            proof {
                assert(forall|j: int|
                    0 <= j < before.len() ==> missing@[j]@ == #[trigger] strs_view(before)[j]);
                assert(strs_view(missing@) =~= missing_patterns(existing@, pats.take(i + 1)));
            }
        } else {
            proof {
                assert(strs_view(missing@) =~= missing_patterns(existing@, pats.take(i + 1)));
            }
        }
        i = i + 1;
    }
    proof {
        assert(pats.take(np as int) =~= pats);
    }
    let nm = missing.len();
    if nm == 0 {
        return None;
    }
    let ghost ms = strs_view(missing@);
    let mut body = String::new();
    let mut k: usize = 0;
    proof {
        assert(ms.take(0) =~= Seq::<Seq<char>>::empty());
        assert(append_lines(ms.take(0)) =~= Seq::<Seq<char>>::empty());
    }
    while k < nm
        invariant
            k <= nm,
            nm == missing@.len(),
            nm >= 1,
            ms == strs_view(missing@),
            body@ == join_nl(append_lines(ms.take(k as int))),
        decreases nm - k,
    {
        if k > 0 {
            push_char(&mut body, '\n');
        }
        body.append("# Added by Autocommiter: ensure ");
        body.append(missing[k].as_str());
        push_char(&mut body, '\n');
        body.append(missing[k].as_str());
        proof {
            let m = ms[k as int];
            assert(m == missing@[k as int]@);
            assert("# Added by Autocommiter: ensure "@ == comment_prefix());
            let prev = append_lines(ms.take(k as int));
            let cur = append_lines(ms.take(k + 1));
            assert(ms.take(k + 1).drop_last() =~= ms.take(k as int));
            assert(ms.take(k + 1).last() == m);
            assert(cur =~= prev + seq![comment_prefix() + m, m]);
            assert(cur.len() == prev.len() + 2);
            assert(cur.drop_last() =~= prev + seq![comment_prefix() + m]);
            assert(cur.drop_last().last() == comment_prefix() + m);
            assert(cur.drop_last().drop_last() =~= prev);
            if k == 0 {
                assert(join_nl(cur.drop_last()) == comment_prefix() + m);
                assert(body@ =~= join_nl(cur));
            } else {
                assert(cur.drop_last().len() >= 2);
                assert(join_nl(cur.drop_last()) == join_nl(prev) + seq!['\n'] + (comment_prefix()
                    + m));
                assert(body@ =~= join_nl(cur));
            }
        }
        k = k + 1;
    }
    proof {
        assert(ms.take(nm as int) =~= ms);
    }
    push_char(&mut body, '\n');
    let trimmed = trim_whitespace(existing);
    if trimmed.as_str().unicode_len() == 0 {
        proof {
            assert(body@ =~= join_nl(append_lines(ms)) + seq!['\n']);
        }
        Some(body)
    } else {
        let mut content = existing.to_owned();
        push_char(&mut content, '\n');
        content.append(body.as_str());
        proof {
            assert(content@ =~= existing@ + seq!['\n'] + (join_nl(append_lines(ms))
                + seq!['\n']));
        }
        Some(content)
    }
}

} // verus!
