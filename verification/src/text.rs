//! Character and string utilities shared by the library: whitespace
//! handling, decimal formatting and parsing, substring search, and the
//! small set of trusted bridges to `std`'s string routines.

use vstd::prelude::*;

verus! {

// ---------------------------------------------------------------------------
// Whitespace
// ---------------------------------------------------------------------------

/// The characters with the Unicode `White_Space` property.
pub open spec fn is_space_char(c: char) -> bool {
    ||| 0x09 <= (c as u32) <= 0x0D
    ||| (c as u32) == 0x20
    ||| (c as u32) == 0x85
    ||| (c as u32) == 0xA0
    ||| (c as u32) == 0x1680
    ||| 0x2000 <= (c as u32) <= 0x200A
    ||| (c as u32) == 0x2028
    ||| (c as u32) == 0x2029
    ||| (c as u32) == 0x202F
    ||| (c as u32) == 0x205F
    ||| (c as u32) == 0x3000
}

/// Relies on char::is_whitespace: true exactly for the characters with the
/// Unicode `White_Space` property, the code points listed in `is_space_char`.
#[verifier::external_body]
pub fn is_whitespace_char(c: char) -> (r: bool)
    ensures
        r == is_space_char(c),
{
    c.is_whitespace()
}

/// True when the string is empty or made of whitespace only.
pub open spec fn is_blank_spec(s: Seq<char>) -> bool {
    forall|i: int| 0 <= i < s.len() ==> is_space_char(s[i])
}

pub fn is_blank(s: &str) -> (r: bool)
    ensures
        r == is_blank_spec(s@),
{
    let n = s.unicode_len();
    let mut i: usize = 0;
    while i < n
        invariant
            i <= n,
            n == s@.len(),
            forall|j: int| 0 <= j < i ==> is_space_char(s@[j]),
        decreases n - i,
    {
        if !is_whitespace_char(s.get_char(i)) {
            return false;
        }
        i = i + 1;
    }
    true
}

// ---------------------------------------------------------------------------
// Trimming
// ---------------------------------------------------------------------------

/// The string without its leading whitespace.
pub open spec fn trim_front(s: Seq<char>) -> Seq<char>
    decreases s.len(),
{
    if s.len() > 0 && is_space_char(s[0]) {
        trim_front(s.drop_first())
    } else {
        s
    }
}

/// The string without its trailing whitespace.
pub open spec fn trim_back(s: Seq<char>) -> Seq<char>
    decreases s.len(),
{
    if s.len() > 0 && is_space_char(s.last()) {
        trim_back(s.drop_last())
    } else {
        s
    }
}

/// The string without leading and trailing whitespace.
pub open spec fn trim_spec(s: Seq<char>) -> Seq<char> {
    trim_back(trim_front(s))
}

fn trim_leading(s: &str) -> (r: String)
    ensures
        r@ == trim_front(s@),
    decreases s@.len(),
{
    let n = s.unicode_len();
    if n > 0 && is_whitespace_char(s.get_char(0)) {
        let rest = s.substring_char(1, n);
        proof {
            assert(rest@ =~= s@.drop_first());
        }
        trim_leading(rest)
    } else {
        s.to_owned()
    }
}

fn trim_trailing(s: &str) -> (r: String)
    ensures
        r@ == trim_back(s@),
    decreases s@.len(),
{
    let n = s.unicode_len();
    if n > 0 && is_whitespace_char(s.get_char(n - 1)) {
        let rest = s.substring_char(0, n - 1);
        proof {
            assert(rest@ =~= s@.drop_last());
        }
        trim_trailing(rest)
    } else {
        s.to_owned()
    }
}

/// The string with leading and trailing whitespace removed.
pub fn trim_whitespace(s: &str) -> (r: String)
    ensures
        r@ == trim_spec(s@),
{
    let front = trim_leading(s);
    trim_trailing(front.as_str())
}

// ---------------------------------------------------------------------------
// Collapsing whitespace runs
// ---------------------------------------------------------------------------

/// The string with every maximal run of whitespace replaced by one space.
pub open spec fn collapse_ws(s: Seq<char>) -> Seq<char>
    decreases s.len(),
{
    if s.len() == 0 {
        Seq::empty()
    } else if s.len() == 1 {
        if is_space_char(s[0]) {
            seq![' ']
        } else {
            seq![s[0]]
        }
    } else if is_space_char(s[0]) && is_space_char(s[1]) {
        collapse_ws(s.drop_first())
    } else if is_space_char(s[0]) {
        seq![' '] + collapse_ws(s.drop_first())
    } else {
        seq![s[0]] + collapse_ws(s.drop_first())
    }
}

/// The string with every maximal whitespace run replaced by a single space.
pub fn collapse_whitespace(s: &str) -> (r: String)
    ensures
        r@ == collapse_ws(s@),
    decreases s@.len(),
{
    let n = s.unicode_len();
    if n == 0 {
        String::new()
    } else if n == 1 {
        let c = s.get_char(0);
        let out = if is_whitespace_char(c) {
            ' '
        } else {
            c
        };
        let mut r = String::new();
        push_char(&mut r, out);
        proof {
            assert(r@ =~= collapse_ws(s@));
        }
        r
    } else {
        let c0 = s.get_char(0);
        let c1 = s.get_char(1);
        let rest = s.substring_char(1, n);
        proof {
            assert(rest@ =~= s@.drop_first());
        }
        if is_whitespace_char(c0) && is_whitespace_char(c1) {
            collapse_whitespace(rest)
        } else {
            let tail = collapse_whitespace(rest);
            let mut r = String::new();
            push_char(&mut r, if is_whitespace_char(c0) { ' ' } else { c0 });
            r.append(tail.as_str());
            proof {
                assert(r@ =~= collapse_ws(s@));
            }
            r
        }
    }
}

// ---------------------------------------------------------------------------
// Splitting into whitespace-separated words
// ---------------------------------------------------------------------------

/// The length of the maximal non-whitespace prefix.
pub open spec fn word_len(s: Seq<char>) -> nat
    decreases s.len(),
{
    if s.len() == 0 || is_space_char(s[0]) {
        0
    } else {
        1 + word_len(s.drop_first())
    }
}

pub proof fn lemma_word_len(s: Seq<char>)
    ensures
        word_len(s) <= s.len(),
        s.len() > 0 && !is_space_char(s[0]) ==> word_len(s) >= 1,
    decreases s.len(),
{
    if s.len() > 0 && !is_space_char(s[0]) {
        lemma_word_len(s.drop_first());
    }
}

/// The maximal non-whitespace words of the string, in order.
pub open spec fn split_ws_spec(s: Seq<char>) -> Seq<Seq<char>>
    decreases s.len(),
    via split_ws_decreases
{
    if s.len() == 0 {
        seq![]
    } else if is_space_char(s[0]) {
        split_ws_spec(s.drop_first())
    } else {
        seq![s.take(word_len(s) as int)] + split_ws_spec(s.skip(word_len(s) as int))
    }
}

#[via_fn]
proof fn split_ws_decreases(s: Seq<char>) {
    if s.len() > 0 && !is_space_char(s[0]) {
        lemma_word_len(s);
    }
}

/// The view of a sequence of strings, string by string.
pub open spec fn strs_view(v: Seq<String>) -> Seq<Seq<char>> {
    v.map_values(|x: String| x@)
}

/// Splits the string into its whitespace-separated words.
pub fn split_whitespace_words(s: &str) -> (r: Vec<String>)
    ensures
        strs_view(r@) == split_ws_spec(s@),
    decreases s@.len(),
{
    let n = s.unicode_len();
    if n == 0 {
        let r: Vec<String> = Vec::new();
        proof {
            assert(strs_view(r@) =~= split_ws_spec(s@));
        }
        r
    } else if is_whitespace_char(s.get_char(0)) {
        let rest = s.substring_char(1, n);
        proof {
            assert(rest@ =~= s@.drop_first());
        }
        split_whitespace_words(rest)
    } else {
        // scan to the end of the first word
        let mut i: usize = 1;
        proof {
            assert(s@.skip(0) =~= s@);
            assert(s@.skip(0).drop_first() =~= s@.skip(1));
        }
        while i < n && !is_whitespace_char(s.get_char(i))
            invariant
                1 <= i <= n,
                n == s@.len(),
                word_len(s@) == i + word_len(s@.skip(i as int)),
            decreases n - i,
        {
            proof {
                assert(s@.skip(i as int).drop_first() =~= s@.skip(i + 1));
            }
            i = i + 1;
        }
        proof {
            assert(word_len(s@) == i);
        }
        let w = s.substring_char(0, i).to_owned();
        let rest_str = s.substring_char(i, n);
        let rest = split_whitespace_words(rest_str);
        let mut r: Vec<String> = Vec::new();
        r.push(w);
        let mut rest_mut = rest;
        r.append(&mut rest_mut);
        proof {
            assert(s@.take(word_len(s@) as int) =~= w@);
            assert(strs_view(r@) =~= seq![w@] + split_ws_spec(rest_str@));
        }
        r
    }
}

// ---------------------------------------------------------------------------
// Joining lines
// ---------------------------------------------------------------------------

/// Strings joined with a newline between each pair.
pub open spec fn join_nl(v: Seq<Seq<char>>) -> Seq<char>
    decreases v.len(),
{
    if v.len() == 0 {
        Seq::empty()
    } else if v.len() == 1 {
        v[0]
    } else {
        join_nl(v.drop_last()) + seq!['\n'] + v.last()
    }
}

// ---------------------------------------------------------------------------
// Finding a character
// ---------------------------------------------------------------------------

/// The index of the first occurrence of `c`, or the length when absent.
pub open spec fn char_index_of(s: Seq<char>, c: char) -> int
    decreases s.len(),
{
    if s.len() == 0 {
        0
    } else if s[0] == c {
        0
    } else {
        1 + char_index_of(s.drop_first(), c)
    }
}

pub proof fn lemma_char_index_of(s: Seq<char>, c: char)
    ensures
        0 <= char_index_of(s, c) <= s.len(),
        char_index_of(s, c) < s.len() ==> s[char_index_of(s, c)] == c,
        forall|j: int| 0 <= j < char_index_of(s, c) ==> s[j] != c,
    decreases s.len(),
{
    if s.len() > 0 && s[0] != c {
        lemma_char_index_of(s.drop_first(), c);
        assert forall|j: int| 0 <= j < char_index_of(s, c) implies s[j] != c by {
            if j > 0 {
                assert(s[j] == s.drop_first()[j - 1]);
            }
        }
    }
}

/// The index of the first occurrence of `c`, or the length when absent.
pub fn find_char(s: &str, c: char) -> (i: usize)
    ensures
        i as int == char_index_of(s@, c),
        i <= s@.len(),
    decreases s@.len(),
{
    let n = s.unicode_len();
    if n == 0 {
        0
    } else if s.get_char(0) == c {
        0
    } else {
        let rest = s.substring_char(1, n);
        proof {
            assert(rest@ =~= s@.drop_first());
        }
        1 + find_char(rest, c)
    }
}

// ---------------------------------------------------------------------------
// Substring search
// ---------------------------------------------------------------------------

/// True when `needle` occurs as a contiguous substring of `hay`.
pub open spec fn contains_spec(hay: Seq<char>, needle: Seq<char>) -> bool {
    exists|i: int|
        0 <= i && i + needle.len() <= hay.len() && #[trigger] hay.subrange(i, i + needle.len())
            == needle
}

/// Relies on str::contains: true exactly when the needle occurs as a
/// contiguous substring. An occurrence in the UTF-8 bytes always falls on
/// character boundaries, so byte-level and character-level occurrence agree.
#[verifier::external_body]
pub fn contains_str(hay: &str, needle: &str) -> (r: bool)
    ensures
        r == contains_spec(hay@, needle@),
{
    hay.contains(needle)
}

// ---------------------------------------------------------------------------
// Lowercasing
// ---------------------------------------------------------------------------

/// The characters of `str::to_lowercase` applied to the given characters.
pub uninterp spec fn lower_of(s: Seq<char>) -> Seq<char>;

/// Relies on str::to_lowercase: the result is a function of the input
/// characters alone (the Unicode lowercase mapping, no locale involved).
#[verifier::external_body]
pub fn lowercase(s: &str) -> (r: String)
    ensures
        r@ == lower_of(s@),
{
    s.to_lowercase()
}

// ---------------------------------------------------------------------------
// Appending a character
// ---------------------------------------------------------------------------

/// Relies on String::push: appends exactly the given character.
#[verifier::external_body]
pub fn push_char(s: &mut String, c: char)
    ensures
        final(s)@ == old(s)@.push(c),
{
    s.push(c)
}

// ---------------------------------------------------------------------------
// Decimal digits
// ---------------------------------------------------------------------------

/// The decimal digit for a value between 0 and 9.
pub open spec fn digit_char(d: int) -> char {
    if d == 0 {
        '0'
    } else if d == 1 {
        '1'
    } else if d == 2 {
        '2'
    } else if d == 3 {
        '3'
    } else if d == 4 {
        '4'
    } else if d == 5 {
        '5'
    } else if d == 6 {
        '6'
    } else if d == 7 {
        '7'
    } else if d == 8 {
        '8'
    } else {
        '9'
    }
}

/// The value of a decimal digit, or -1 for any other character.
pub open spec fn digit_val(c: char) -> int {
    if c == '0' {
        0
    } else if c == '1' {
        1
    } else if c == '2' {
        2
    } else if c == '3' {
        3
    } else if c == '4' {
        4
    } else if c == '5' {
        5
    } else if c == '6' {
        6
    } else if c == '7' {
        7
    } else if c == '8' {
        8
    } else if c == '9' {
        9
    } else {
        -1
    }
}

fn digit_char_of(d: usize) -> (c: char)
    requires
        d <= 9,
    ensures
        c == digit_char(d as int),
{
    match d {
        0 => '0',
        1 => '1',
        2 => '2',
        3 => '3',
        4 => '4',
        5 => '5',
        6 => '6',
        7 => '7',
        8 => '8',
        _ => '9',
    }
}

fn digit_of(c: char) -> (r: Option<usize>)
    ensures
        match r {
            Some(d) => digit_val(c) == d && d <= 9,
            None => digit_val(c) < 0,
        },
{
    match c {
        '0' => Some(0),
        '1' => Some(1),
        '2' => Some(2),
        '3' => Some(3),
        '4' => Some(4),
        '5' => Some(5),
        '6' => Some(6),
        '7' => Some(7),
        '8' => Some(8),
        '9' => Some(9),
        _ => None,
    }
}

// ---------------------------------------------------------------------------
// Decimal formatting
// ---------------------------------------------------------------------------

/// The decimal representation of a number, most significant digit first.
pub open spec fn dec_str(n: nat) -> Seq<char>
    decreases n,
{
    if n < 10 {
        seq![digit_char(n as int)]
    } else {
        dec_str(n / 10) + seq![digit_char((n % 10) as int)]
    }
}

/// Formats a number in decimal.
pub fn usize_to_string(n: usize) -> (r: String)
    ensures
        r@ == dec_str(n as nat),
    decreases n,
{
    if n < 10 {
        let mut s = String::new();
        push_char(&mut s, digit_char_of(n));
        proof {
            assert(s@ =~= dec_str(n as nat));
        }
        s
    } else {
        let mut s = usize_to_string(n / 10);
        push_char(&mut s, digit_char_of(n % 10));
        proof {
            assert(s@ =~= dec_str(n as nat));
        }
        s
    }
}

// ---------------------------------------------------------------------------
// Decimal parsing
// ---------------------------------------------------------------------------

/// True when every character is a decimal digit.
pub open spec fn all_digits(s: Seq<char>) -> bool {
    forall|i: int| 0 <= i < s.len() ==> digit_val(s[i]) >= 0
}

/// The value of a string of decimal digits.
pub open spec fn str_to_nat(s: Seq<char>) -> nat
    decreases s.len(),
{
    if s.len() == 0 {
        0
    } else {
        str_to_nat(s.drop_last()) * 10 + (if digit_val(s.last()) >= 0 {
            digit_val(s.last())
        } else {
            0
        }) as nat
    }
}

/// The number a string denotes: its digits' value when it is a non-empty
/// string of decimal digits whose value fits in `usize`, and 0 otherwise.
pub open spec fn parsed_count(s: Seq<char>) -> usize {
    if s.len() > 0 && all_digits(s) && str_to_nat(s) <= usize::MAX {
        str_to_nat(s) as usize
    } else {
        0
    }
}

proof fn lemma_str_to_nat_prefix_le(s: Seq<char>, j: int)
    requires
        0 <= j <= s.len(),
    ensures
        str_to_nat(s.take(j)) <= str_to_nat(s),
    decreases s.len() - j,
{
    if j < s.len() {
        lemma_str_to_nat_prefix_le(s, j + 1);
        assert(s.take(j + 1).drop_last() =~= s.take(j));
        assert(str_to_nat(s.take(j)) <= str_to_nat(s.take(j + 1)));
    } else {
        assert(s.take(j) =~= s);
    }
}

/// Parses a non-empty all-digit string to its value; returns 0 for the
/// empty string, for any non-digit character, and on overflow.
pub fn parse_usize(s: &str) -> (r: usize)
    ensures
        r == parsed_count(s@),
{
    let n = s.unicode_len();
    if n == 0 {
        return 0;
    }
    let mut acc: usize = 0;
    let mut i: usize = 0;
    while i < n
        invariant
            0 <= i <= n,
            n == s@.len(),
            n > 0,
            forall|j: int| 0 <= j < i ==> digit_val(s@[j]) >= 0,
            acc == str_to_nat(s@.take(i as int)),
        decreases n - i,
    {
        let c = s.get_char(i);
        match digit_of(c) {
            None => {
                return 0;
            },
            Some(d) => {
                proof {
                    assert(s@.take(i + 1).drop_last() =~= s@.take(i as int));
                }
                if acc > (usize::MAX - d) / 10 {
                    // the digits so far already exceed usize::MAX
                    proof {
                        assert(acc * 10 + d > usize::MAX) by (nonlinear_arith)
                            requires
                                acc > (usize::MAX - d) / 10,
                                d <= 9,
                                acc >= 0,
                        ;
                        lemma_str_to_nat_prefix_le(s@, i + 1);
                        assert(str_to_nat(s@) > usize::MAX);
                    }
                    return 0;
                }
                proof {
                    assert(acc * 10 + d <= usize::MAX) by (nonlinear_arith)
                        requires
                            acc <= (usize::MAX - d) / 10,
                            d <= 9,
                            acc >= 0,
                    ;
                }
                acc = acc * 10 + d;
                i = i + 1;
            },
        }
    }
    proof {
        assert(s@.take(n as int) =~= s@);
    }
    acc
}

} // verus!
