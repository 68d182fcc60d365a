//! Choosing a gitmoji for a commit message: a fixed table of entries, a
//! fuzzy keyword score, the best match above a threshold, and a random
//! fallback.

use vstd::prelude::*;

use crate::text::contains_spec;
use crate::text::contains_str;
use crate::text::is_blank;
use crate::text::is_blank_spec;
use crate::text::lower_of;
use crate::text::lowercase;
use crate::text::push_char;
use crate::text::split_whitespace_words;
use crate::text::split_ws_spec;
use crate::text::strs_view;

verus! {

/// One entry of the gitmoji table.
#[derive(Debug, Clone)]
pub struct Gitmoji {
    pub emoji: String,
    pub code: String,
    pub description: String,
    pub keywords: Vec<String>,
}

/// The mathematical view of a table entry.
pub struct GitmojiView {
    pub emoji: Seq<char>,
    pub code: Seq<char>,
    pub description: Seq<char>,
    pub keywords: Seq<Seq<char>>,
}

impl View for Gitmoji {
    type V = GitmojiView;

    open spec fn view(&self) -> GitmojiView {
        GitmojiView {
            emoji: self.emoji@,
            code: self.code@,
            description: self.description@,
            keywords: strs_view(self.keywords@),
        }
    }
}

// ---------------------------------------------------------------------------
// The table
// ---------------------------------------------------------------------------

/// The fixed gitmoji table, in selection order.
pub open spec fn spec_table() -> Seq<GitmojiView> {
    seq![
        GitmojiView {
            emoji: "\u{1F3A8}"@,
            code: ":art:"@,
            description: "Improve structure/format"@,
            keywords: seq!["format"@, "structure"@, "style"@, "lint"@],
        },
        GitmojiView {
            emoji: "\u{26A1}"@,
            code: ":zap:"@,
            description: "Improve performance"@,
            keywords: seq!["performance"@, "speed"@, "optimize"@, "fast"@],
        },
        GitmojiView {
            emoji: "\u{1F525}"@,
            code: ":fire:"@,
            description: "Remove code/files"@,
            keywords: seq!["remove"@, "delete"@, "clean"@, "unused"@],
        },
        GitmojiView {
            emoji: "\u{1F41B}"@,
            code: ":bug:"@,
            description: "Fix bug"@,
            keywords: seq!["fix"@, "bug"@, "issue"@, "error"@, "crash"@],
        },
        GitmojiView {
            emoji: "\u{2728}"@,
            code: ":sparkles:"@,
            description: "New feature"@,
            keywords: seq!["feature"@, "new"@, "add"@, "implement"@],
        },
        GitmojiView {
            emoji: "\u{1F4DD}"@,
            code: ":memo:"@,
            description: "Add documentation"@,
            keywords: seq!["docs"@, "documentation"@, "comment"@, "readme"@],
        },
        GitmojiView {
            emoji: "\u{1F680}"@,
            code: ":rocket:"@,
            description: "Deploy stuff"@,
            keywords: seq!["deploy"@, "release"@, "publish"@, "launch"@],
        },
        GitmojiView {
            emoji: "\u{1F485}"@,
            code: ":nail_care:"@,
            description: "Polish code"@,
            keywords: seq!["polish"@, "refine"@, "improve"@],
        },
        GitmojiView {
            emoji: "\u{2705}"@,
            code: ":white_check_mark:"@,
            description: "Add tests"@,
            keywords: seq!["test"@, "tests"@, "testing"@],
        },
        GitmojiView {
            emoji: "\u{1F512}"@,
            code: ":lock:"@,
            description: "Security fix"@,
            keywords: seq!["security"@, "auth"@, "encrypt"@],
        },
        GitmojiView {
            emoji: "\u{2B06}\u{FE0F}"@,
            code: ":arrow_up:"@,
            description: "Upgrade dependencies"@,
            keywords: seq!["upgrade"@, "update"@, "dependency"@, "dependencies"@],
        },
        GitmojiView {
            emoji: "\u{2B07}\u{FE0F}"@,
            code: ":arrow_down:"@,
            description: "Downgrade dependencies"@,
            keywords: seq!["downgrade"@],
        },
        GitmojiView {
            emoji: "\u{1F4E6}"@,
            code: ":package:"@,
            description: "Update packages"@,
            keywords: seq!["package"@, "npm"@, "yarn"@, "bundler"@],
        },
        GitmojiView {
            emoji: "\u{1F527}"@,
            code: ":wrench:"@,
            description: "Configuration"@,
            keywords: seq!["config"@, "configuration"@, "settings"@],
        },
        GitmojiView {
            emoji: "\u{1F310}"@,
            code: ":globe_with_meridians:"@,
            description: "i18n/localization"@,
            keywords: seq!["i18n"@, "translation"@, "locale"@, "language"@],
        },
        GitmojiView {
            emoji: "\u{267F}"@,
            code: ":wheelchair:"@,
            description: "Accessibility"@,
            keywords: seq!["accessibility"@, "a11y"@, "aria"@],
        },
        GitmojiView {
            emoji: "\u{1F6A8}"@,
            code: ":rotating_light:"@,
            description: "Fix warnings"@,
            keywords: seq!["warning"@, "lint"@],
        },
        GitmojiView {
            emoji: "\u{1F50D}"@,
            code: ":mag:"@,
            description: "SEO"@,
            keywords: seq!["seo"@],
        },
        GitmojiView {
            emoji: "\u{1F34E}"@,
            code: ":apple:"@,
            description: "macOS fix"@,
            keywords: seq!["macos"@, "mac"@, "apple"@],
        },
        GitmojiView {
            emoji: "\u{1F427}"@,
            code: ":penguin:"@,
            description: "Linux fix"@,
            keywords: seq!["linux"@, "ubuntu"@],
        },
        GitmojiView {
            emoji: "\u{1F40D}"@,
            code: ":snake:"@,
            description: "Python changes"@,
            keywords: seq!["python"@, "django"@, "flask"@, "pip"@, "pytorch"@],
        },
        GitmojiView {
            emoji: "\u{1F4DA}"@,
            code: ":books:"@,
            description: "Node.js/JavaScript"@,
            keywords: seq!["node"@, "npm"@, "javascript"@, "express"@, "typescript"@],
        },
        GitmojiView {
            emoji: "\u{1F980}"@,
            code: ":crab:"@,
            description: "Rust changes"@,
            keywords: seq!["rust"@, "cargo"@, "tokio"@, "wasm"@],
        },
        GitmojiView {
            emoji: "\u{2615}"@,
            code: ":coffee:"@,
            description: "Java changes"@,
            keywords: seq!["java"@, "spring"@, "maven"@, "gradle"@, "jvm"@],
        },
        GitmojiView {
            emoji: "\u{1F433}"@,
            code: ":whale:"@,
            description: "Docker changes"@,
            keywords: seq!["docker"@, "container"@, "dockerfile"@, "image"@],
        },
    ]
}

fn mk(emoji: &str, code: &str, description: &str, keywords: Vec<String>) -> (g: Gitmoji)
    ensures
        g@ == (GitmojiView {
            emoji: emoji@,
            code: code@,
            description: description@,
            keywords: strs_view(keywords@),
        }),
{
    Gitmoji {
        emoji: emoji.to_owned(),
        code: code.to_owned(),
        description: description.to_owned(),
        keywords,
    }
}

fn kw1(a: &str) -> (r: Vec<String>)
    ensures
        strs_view(r@) == seq![a@],
{
    let mut r: Vec<String> = Vec::new();
    r.push(a.to_owned());
    proof {
        assert(strs_view(r@) =~= seq![a@]);
    }
    r
}

fn kw2(a: &str, b: &str) -> (r: Vec<String>)
    ensures
        strs_view(r@) == seq![a@, b@],
{
    let mut r = kw1(a);
    let ghost prev = r@;
    r.push(b.to_owned());
    proof {
        assert(strs_view(prev).len() == prev.len());
        assert(prev[0]@ == strs_view(prev)[0]);
        assert(strs_view(r@) =~= seq![a@, b@]);
    }
    r
}

fn kw3(a: &str, b: &str, c: &str) -> (r: Vec<String>)
    ensures
        strs_view(r@) == seq![a@, b@, c@],
{
    let mut r = kw2(a, b);
    let ghost prev = r@;
    r.push(c.to_owned());
    proof {
        assert(strs_view(prev).len() == prev.len());
        assert(prev[0]@ == strs_view(prev)[0]);
        assert(prev[1]@ == strs_view(prev)[1]);
        assert(strs_view(r@) =~= seq![a@, b@, c@]);
    }
    r
}

fn kw4(a: &str, b: &str, c: &str, d: &str) -> (r: Vec<String>)
    ensures
        strs_view(r@) == seq![a@, b@, c@, d@],
{
    let mut r = kw3(a, b, c);
    let ghost prev = r@;
    r.push(d.to_owned());
    proof {
        assert(strs_view(prev).len() == prev.len());
        assert(prev[0]@ == strs_view(prev)[0]);
        assert(prev[1]@ == strs_view(prev)[1]);
        assert(prev[2]@ == strs_view(prev)[2]);
        assert(strs_view(r@) =~= seq![a@, b@, c@, d@]);
    }
    r
}

fn kw5(a: &str, b: &str, c: &str, d: &str, e: &str) -> (r: Vec<String>)
    ensures
        strs_view(r@) == seq![a@, b@, c@, d@, e@],
{
    let mut r = kw4(a, b, c, d);
    let ghost prev = r@;
    r.push(e.to_owned());
    proof {
        assert(strs_view(prev).len() == prev.len());
        assert(prev[0]@ == strs_view(prev)[0]);
        assert(prev[1]@ == strs_view(prev)[1]);
        assert(prev[2]@ == strs_view(prev)[2]);
        assert(prev[3]@ == strs_view(prev)[3]);
        assert(strs_view(r@) =~= seq![a@, b@, c@, d@, e@]);
    }
    r
}

/// The table entry at the given position.
pub fn table_entry(i: usize) -> (g: Gitmoji)
    requires
        i < spec_table().len(),
    ensures
        g@ == spec_table()[i as int],
{
    if i == 0 {
        mk("\u{1F3A8}", ":art:", "Improve structure/format", kw4("format", "structure", "style", "lint"))
    } else if i == 1 {
        mk("\u{26A1}", ":zap:", "Improve performance", kw4("performance", "speed", "optimize", "fast"))
    } else if i == 2 {
        mk("\u{1F525}", ":fire:", "Remove code/files", kw4("remove", "delete", "clean", "unused"))
    } else if i == 3 {
        mk("\u{1F41B}", ":bug:", "Fix bug", kw5("fix", "bug", "issue", "error", "crash"))
    } else if i == 4 {
        mk("\u{2728}", ":sparkles:", "New feature", kw4("feature", "new", "add", "implement"))
    } else if i == 5 {
        mk("\u{1F4DD}", ":memo:", "Add documentation", kw4("docs", "documentation", "comment", "readme"))
    } else if i == 6 {
        mk("\u{1F680}", ":rocket:", "Deploy stuff", kw4("deploy", "release", "publish", "launch"))
    } else if i == 7 {
        mk("\u{1F485}", ":nail_care:", "Polish code", kw3("polish", "refine", "improve"))
    } else if i == 8 {
        mk("\u{2705}", ":white_check_mark:", "Add tests", kw3("test", "tests", "testing"))
    } else if i == 9 {
        mk("\u{1F512}", ":lock:", "Security fix", kw3("security", "auth", "encrypt"))
    } else if i == 10 {
        mk("\u{2B06}\u{FE0F}", ":arrow_up:", "Upgrade dependencies", kw4("upgrade", "update", "dependency", "dependencies"))
    } else if i == 11 {
        mk("\u{2B07}\u{FE0F}", ":arrow_down:", "Downgrade dependencies", kw1("downgrade"))
    } else if i == 12 {
        mk("\u{1F4E6}", ":package:", "Update packages", kw4("package", "npm", "yarn", "bundler"))
    } else if i == 13 {
        mk("\u{1F527}", ":wrench:", "Configuration", kw3("config", "configuration", "settings"))
    } else if i == 14 {
        mk("\u{1F310}", ":globe_with_meridians:", "i18n/localization", kw4("i18n", "translation", "locale", "language"))
    } else if i == 15 {
        mk("\u{267F}", ":wheelchair:", "Accessibility", kw3("accessibility", "a11y", "aria"))
    } else if i == 16 {
        mk("\u{1F6A8}", ":rotating_light:", "Fix warnings", kw2("warning", "lint"))
    } else if i == 17 {
        mk("\u{1F50D}", ":mag:", "SEO", kw1("seo"))
    } else if i == 18 {
        mk("\u{1F34E}", ":apple:", "macOS fix", kw3("macos", "mac", "apple"))
    } else if i == 19 {
        mk("\u{1F427}", ":penguin:", "Linux fix", kw2("linux", "ubuntu"))
    } else if i == 20 {
        mk("\u{1F40D}", ":snake:", "Python changes", kw5("python", "django", "flask", "pip", "pytorch"))
    } else if i == 21 {
        mk("\u{1F4DA}", ":books:", "Node.js/JavaScript", kw5("node", "npm", "javascript", "express", "typescript"))
    } else if i == 22 {
        mk("\u{1F980}", ":crab:", "Rust changes", kw4("rust", "cargo", "tokio", "wasm"))
    } else if i == 23 {
        mk("\u{2615}", ":coffee:", "Java changes", kw5("java", "spring", "maven", "gradle", "jvm"))
    } else {
        mk("\u{1F433}", ":whale:", "Docker changes", kw4("docker", "container", "dockerfile", "image"))
    }
}

/// The views of a sequence of table entries.
pub open spec fn gitmoji_views(s: Seq<Gitmoji>) -> Seq<GitmojiView> {
    s.map_values(|g: Gitmoji| g@)
}

/// The whole gitmoji table.
pub fn gitmoji_table() -> (t: Vec<Gitmoji>)
    ensures
        gitmoji_views(t@) == spec_table(),
{
    let mut t: Vec<Gitmoji> = Vec::new();
    let mut i: usize = 0;
    while i < 25
        invariant
            i <= 25,
            t@.len() == i,
            forall|j: int| 0 <= j < i ==> t@[j]@ == spec_table()[j],
        decreases 25 - i,
    {
        t.push(table_entry(i));
        i = i + 1;
    }
    proof {
        assert(gitmoji_views(t@) =~= spec_table());
    }
    t
}

// ---------------------------------------------------------------------------
// Scoring
// ---------------------------------------------------------------------------

/// A value capped at 100.
pub open spec fn cap100(x: int) -> int {
    if x >= 100 {
        100
    } else {
        x
    }
}

/// What one keyword contributes: 40 when it occurs in the lowercased
/// message, and 10 more when its first three characters occur (only for
/// keywords of at least three characters).
pub open spec fn one_kw_score(msgl: Seq<char>, kw: Seq<char>) -> int {
    (if contains_spec(msgl, kw) {
        40int
    } else {
        0int
    }) + (if kw.len() >= 3 && contains_spec(msgl, kw.take(3)) {
        10int
    } else {
        0int
    })
}

/// The sum of the keyword contributions.
pub open spec fn kw_score(msgl: Seq<char>, kws: Seq<Seq<char>>) -> int
    decreases kws.len(),
{
    if kws.len() == 0 {
        0
    } else {
        kw_score(msgl, kws.drop_last()) + one_kw_score(msgl, kws.last())
    }
}

/// What one description word contributes: 15 when it is longer than two
/// characters and occurs in the lowercased message.
pub open spec fn one_word_score(msgl: Seq<char>, w: Seq<char>) -> int {
    if w.len() > 2 && contains_spec(msgl, w) {
        15
    } else {
        0
    }
}

/// The sum of the description-word contributions.
pub open spec fn words_score(msgl: Seq<char>, ws: Seq<Seq<char>>) -> int
    decreases ws.len(),
{
    if ws.len() == 0 {
        0
    } else {
        words_score(msgl, ws.drop_last()) + one_word_score(msgl, ws.last())
    }
}

/// The uncapped score of an entry against a lowercased message.
pub open spec fn raw_score(msgl: Seq<char>, g: GitmojiView) -> int {
    kw_score(msgl, g.keywords) + words_score(msgl, split_ws_spec(lower_of(g.description)))
}

/// The score of an entry against a lowercased message, capped at 100.
pub open spec fn fuzzy_score(msgl: Seq<char>, g: GitmojiView) -> int {
    cap100(raw_score(msgl, g))
}

pub proof fn lemma_kw_score_nonneg(msgl: Seq<char>, kws: Seq<Seq<char>>)
    ensures
        kw_score(msgl, kws) >= 0,
    decreases kws.len(),
{
    if kws.len() > 0 {
        lemma_kw_score_nonneg(msgl, kws.drop_last());
    }
}

pub proof fn lemma_words_score_nonneg(msgl: Seq<char>, ws: Seq<Seq<char>>)
    ensures
        words_score(msgl, ws) >= 0,
    decreases ws.len(),
{
    if ws.len() > 0 {
        lemma_words_score_nonneg(msgl, ws.drop_last());
    }
}

/// Law: the fuzzy score always lies between 0 and 100.
pub proof fn lemma_score_in_range(msgl: Seq<char>, g: GitmojiView)
    ensures
        0 <= fuzzy_score(msgl, g) <= 100,
{
    lemma_kw_score_nonneg(msgl, g.keywords);
    lemma_words_score_nonneg(msgl, split_ws_spec(lower_of(g.description)));
}

proof fn lemma_kw_score_member(msgl: Seq<char>, kws: Seq<Seq<char>>, i: int)
    requires
        0 <= i < kws.len(),
    ensures
        kw_score(msgl, kws) >= one_kw_score(msgl, kws[i]),
    decreases kws.len(),
{
    if i == kws.len() - 1 {
        lemma_kw_score_nonneg(msgl, kws.drop_last());
    } else {
        lemma_kw_score_member(msgl, kws.drop_last(), i);
        assert(kws.drop_last()[i] == kws[i]);
    }
}

/// Law: a message that contains one of an entry's keywords (in its
/// lowercased form) scores at least 40 for that entry.
pub proof fn lemma_keyword_scores_forty(msgl: Seq<char>, g: GitmojiView, i: int)
    requires
        0 <= i < g.keywords.len(),
        contains_spec(msgl, g.keywords[i]),
    ensures
        fuzzy_score(msgl, g) >= 40,
{
    lemma_kw_score_member(msgl, g.keywords, i);
    lemma_words_score_nonneg(msgl, split_ws_spec(lower_of(g.description)));
}

/// Scores a commit message against one table entry: 40 per keyword found
/// in the lowercased message, 10 more when the keyword's first three
/// characters are found, 15 per description word longer than two
/// characters that is found; the total is capped at 100.
#[verifier::loop_isolation(false)]
pub fn calculate_fuzzy_score(commit_message: &str, gitmoji: &Gitmoji) -> (score: u32)
    ensures
        score == fuzzy_score(lower_of(commit_message@), gitmoji@),
        score <= 100,
{
    let msg = lowercase(commit_message);
    let ghost msgl = lower_of(commit_message@);
    let ghost kws = gitmoji@.keywords;
    let mut score: u32 = 0;
    let nk = gitmoji.keywords.len();
    let mut i: usize = 0;
    proof {
        assert(kws.take(0) =~= Seq::<Seq<char>>::empty());
    }
    while i < nk
        invariant
            i <= nk,
            score <= 100,
            score == cap100(kw_score(msgl, kws.take(i as int))),
        decreases nk - i,
    {
        let kw = &gitmoji.keywords[i];
        let ghost kwv = kws[i as int];
        proof {
            assert(kwv == strs_view(gitmoji.keywords@)[i as int]);
            lemma_kw_score_nonneg(msgl, kws.take(i as int));
        }
        let mut delta: u32 = 0;
        if contains_str(msg.as_str(), kw.as_str()) {
            delta = 40;
        }
        let kl = kw.as_str().unicode_len();
        if kl >= 3 {
            let p3 = kw.as_str().substring_char(0, 3);
            proof {
                assert(p3@ =~= kwv.take(3));
            }
            if contains_str(msg.as_str(), p3) {
                delta = delta + 10;
            }
        }
        proof {
            assert(delta == one_kw_score(msgl, kwv));
            assert(kws.take(i + 1).drop_last() =~= kws.take(i as int));
            assert(kws.take(i + 1).last() == kwv);
        }
        score = if score + delta >= 100 {
            100
        } else {
            score + delta
        };
        proof {
            assert(score == cap100(kw_score(msgl, kws.take(i + 1))));
        }
        i = i + 1;
    }
    proof {
        assert(kws.take(nk as int) =~= kws);
    }
    let dl = lowercase(gitmoji.description.as_str());
    let words = split_whitespace_words(dl.as_str());
    let ghost wsv = split_ws_spec(lower_of(gitmoji@.description));
    proof {
        assert(strs_view(words@) == wsv);
        assert(wsv.take(0) =~= Seq::<Seq<char>>::empty());
    }
    let nw = words.len();
    let mut j: usize = 0;
    while j < nw
        invariant
            j <= nw,
            score <= 100,
            score == cap100(kw_score(msgl, kws) + words_score(msgl, wsv.take(j as int))),
        decreases nw - j,
    {
        let w = &words[j];
        let ghost wv = wsv[j as int];
        proof {
            assert(wv == strs_view(words@)[j as int]);
            lemma_kw_score_nonneg(msgl, kws);
            lemma_words_score_nonneg(msgl, wsv.take(j as int));
        }
        let wl = w.as_str().unicode_len();
        let mut delta: u32 = 0;
        if wl > 2 {
            if contains_str(msg.as_str(), w.as_str()) {
                delta = 15;
            }
        }
        proof {
            assert(delta == one_word_score(msgl, wv));
            assert(wsv.take(j + 1).drop_last() =~= wsv.take(j as int));
            assert(wsv.take(j + 1).last() == wv);
        }
        score = if score + delta >= 100 {
            100
        } else {
            score + delta
        };
        proof {
            assert(score == cap100(kw_score(msgl, kws) + words_score(msgl, wsv.take(j + 1))));
        }
        j = j + 1;
    }
    proof {
        assert(wsv.take(nw as int) =~= wsv);
    }
    score
}

// ---------------------------------------------------------------------------
// Choosing the best entry
// ---------------------------------------------------------------------------

/// The index of the entry with the strictly highest score above the
/// threshold of 30, the first such entry on ties; `None` when no entry
/// clears the threshold.
pub open spec fn best_idx(msgl: Seq<char>, t: Seq<GitmojiView>) -> Option<int>
    decreases t.len(),
{
    if t.len() == 0 {
        None
    } else {
        let prev = best_idx(msgl, t.drop_last());
        let best = match prev {
            Some(j) => fuzzy_score(msgl, t.drop_last()[j]),
            None => 30,
        };
        if fuzzy_score(msgl, t.last()) > best {
            Some(t.len() - 1)
        } else {
            prev
        }
    }
}

/// The chosen index always lies within the table, so `spec_find_best`
/// below indexes the table soundly.
pub proof fn lemma_best_idx_range(msgl: Seq<char>, t: Seq<GitmojiView>)
    ensures
        match best_idx(msgl, t) {
            Some(j) => 0 <= j < t.len(),
            None => true,
        },
    decreases t.len(),
{
    if t.len() > 0 {
        lemma_best_idx_range(msgl, t.drop_last());
    }
}

/// The best table entry for a message: the first entry whose fuzzy score
/// against the lowercased message is strictly highest and above 30.
pub open spec fn spec_find_best(msg: Seq<char>) -> Option<GitmojiView> {
    match best_idx(lower_of(msg), spec_table()) {
        Some(i) => Some(spec_table()[i]),
        None => None,
    }
}

/// The best-matching table entry for the message, or `None` when the
/// message is blank or no entry scores above the threshold of 30.
#[verifier::loop_isolation(false)]
pub fn find_best_gitmoji(commit_message: &str) -> (r: Option<Gitmoji>)
    ensures
        match r {
            Some(g) => !is_blank_spec(commit_message@) && spec_find_best(commit_message@) == Some(
                g@,
            ),
            None => is_blank_spec(commit_message@) || spec_find_best(commit_message@) is None,
        },
{
    if is_blank(commit_message) {
        return None;
    }
    let ghost msgl = lower_of(commit_message@);
    let mut best_i: usize = 0;
    let mut have: bool = false;
    let mut best_score: u32 = 30;
    let mut i: usize = 0;
    proof {
        assert(spec_table().take(0) =~= Seq::<GitmojiView>::empty());
    }
    while i < 25
        invariant
            i <= 25,
            have ==> best_i < i,
            have ==> best_idx(msgl, spec_table().take(i as int)) == Some(best_i as int)
                && best_score == fuzzy_score(msgl, spec_table()[best_i as int]),
            !have ==> best_idx(msgl, spec_table().take(i as int)) is None && best_score == 30,
        decreases 25 - i,
    {
        let g = table_entry(i);
        let s = calculate_fuzzy_score(commit_message, &g);
        proof {
            assert(spec_table().take(i + 1).drop_last() =~= spec_table().take(i as int));
            assert(spec_table().take(i + 1).last() == spec_table()[i as int]);
            assert(forall|j: int|
                0 <= j < i ==> spec_table().take(i + 1).drop_last()[j] == spec_table()[j]);
        }
        if s > best_score {
            best_score = s;
            best_i = i;
            have = true;
        }
        proof {
            assert(best_idx(msgl, spec_table().take(i + 1)) == (if have {
                Some(best_i as int)
            } else {
                None
            }));
        }
        i = i + 1;
    }
    proof {
        assert(spec_table().take(25) =~= spec_table());
    }
    if have {
        Some(table_entry(best_i))
    } else {
        None
    }
}

// ---------------------------------------------------------------------------
// Random fallback and decoration
// ---------------------------------------------------------------------------

/// Relies on rand::random_range: returns a uniformly drawn index below `n`.
/// The range `0..n` is non-empty, so the call does not panic.
#[verifier::external_body]
fn random_index(n: usize) -> (r: usize)
    requires
        n >= 1,
    ensures
        r < n,
{
    rand::random_range(0..n)
}

/// A uniformly chosen entry of the gitmoji table.
pub fn get_random_gitmoji() -> (g: Gitmoji)
    ensures
        exists|i: int| 0 <= i < spec_table().len() && g@ == #[trigger] spec_table()[i],
{
    let i = random_index(25);
    let g = table_entry(i);
    proof {
        assert(g@ == spec_table()[i as int]);
    }
    g
}

/// The message with the entry's emoji and a space in front.
pub fn prepend_gitmoji(commit_message: &str, gitmoji: &Gitmoji) -> (r: String)
    ensures
        r@ == gitmoji@.emoji + seq![' '] + commit_message@,
{
    let mut r = gitmoji.emoji.clone();
    push_char(&mut r, ' ');
    r.append(commit_message);
    proof {
        assert(r@ =~= gitmoji@.emoji + seq![' '] + commit_message@);
    }
    r
}

/// The message with an emoji in front: the best-matching entry's when one
/// clears the threshold, and a randomly drawn entry's otherwise.
pub fn get_gitmojified_message(commit_message: &str) -> (r: String)
    ensures
        match spec_find_best(commit_message@) {
            Some(g) => is_blank_spec(commit_message@) || r@ == g.emoji + seq![' ']
                + commit_message@,
            None => true,
        },
        (is_blank_spec(commit_message@) || spec_find_best(commit_message@) is None) ==> exists|
            i: int,
        |
            0 <= i < spec_table().len() && r@ == #[trigger] spec_table()[i].emoji + seq![' ']
                + commit_message@,
{
    let best = find_best_gitmoji(commit_message);
    let gitmoji = match best {
        Some(g) => g,
        None => get_random_gitmoji(),
    };
    prepend_gitmoji(commit_message, &gitmoji)
}

} // verus!
