//! Character-level helpers on source text.
use vstd::prelude::*;
use vstd::string::StrSliceExecFns;

verus! {

/// The characters with the Unicode `White_Space` property, which is what
/// `char::is_whitespace` and `str::trim` go by.
pub open spec fn is_space(c: char) -> bool {
    ||| '\u{0009}' <= c <= '\u{000D}'
    ||| c == ' '
    ||| c == '\u{0085}'
    ||| c == '\u{00A0}'
    ||| c == '\u{1680}'
    ||| '\u{2000}' <= c <= '\u{200A}'
    ||| c == '\u{2028}'
    ||| c == '\u{2029}'
    ||| c == '\u{202F}'
    ||| c == '\u{205F}'
    ||| c == '\u{3000}'
}

pub fn char_is_space(c: char) -> (r: bool)
    ensures
        r == is_space(c),
{
    ('\u{0009}' <= c && c <= '\u{000D}') || c == ' ' || c == '\u{0085}' || c == '\u{00A0}' || c
        == '\u{1680}' || ('\u{2000}' <= c && c <= '\u{200A}') || c == '\u{2028}' || c == '\u{2029}'
        || c == '\u{202F}' || c == '\u{205F}' || c == '\u{3000}'
}

/// Index of the first character from `i` up to `e` that is not whitespace
/// (`e` if there is none).
pub open spec fn skip_space_to(s: Seq<char>, i: int, e: int) -> int
    decreases e - i,
{
    if i >= e {
        e
    } else if is_space(s[i]) {
        skip_space_to(s, i + 1, e)
    } else {
        i
    }
}

/// Index of the first character at or after `i` that is not whitespace
/// (`s.len()` if there is none).
pub open spec fn skip_space(s: Seq<char>, i: int) -> int {
    skip_space_to(s, i, s.len() as int)
}

/// Index of the first whitespace character from `i` up to `e` (`e` if there
/// is none): the end of the word that starts at `i`.
pub open spec fn word_end(s: Seq<char>, i: int, e: int) -> int
    decreases e - i,
{
    if i >= e {
        e
    } else if is_space(s[i]) {
        i
    } else {
        word_end(s, i + 1, e)
    }
}

/// Index of the first character `c` from `i` up to `e` (`e` if there is none).
pub open spec fn find_char(s: Seq<char>, c: char, i: int, e: int) -> int
    decreases e - i,
{
    if i >= e {
        e
    } else if s[i] == c {
        i
    } else {
        find_char(s, c, i + 1, e)
    }
}

/// One past the last character before `j` (and at or after `lo`) that is not
/// whitespace (`lo` if there is none).
pub open spec fn skip_space_back(s: Seq<char>, lo: int, j: int) -> int
    decreases j - lo,
{
    if j <= lo {
        lo
    } else if is_space(s[j - 1]) {
        skip_space_back(s, lo, j - 1)
    } else {
        j
    }
}

/// `s` without leading and trailing whitespace.
pub open spec fn trimmed(s: Seq<char>) -> Seq<char> {
    let a = skip_space(s, 0);
    s.subrange(a, skip_space_back(s, a, s.len() as int))
}

pub proof fn lemma_skip_space_to(s: Seq<char>, i: int, e: int)
    requires
        0 <= i <= e <= s.len(),
    ensures
        i <= skip_space_to(s, i, e) <= e,
        skip_space_to(s, i, e) < e ==> !is_space(s[skip_space_to(s, i, e)]),
        forall|k: int| i <= k < skip_space_to(s, i, e) ==> is_space(#[trigger] s[k]),
    decreases e - i,
{
    if i < e && is_space(s[i]) {
        lemma_skip_space_to(s, i + 1, e);
    }
}

pub proof fn lemma_find_char(s: Seq<char>, c: char, i: int, e: int)
    requires
        0 <= i <= e <= s.len(),
    ensures
        i <= find_char(s, c, i, e) <= e,
    decreases e - i,
{
    if i < e && s[i] != c {
        lemma_find_char(s, c, i + 1, e);
    }
}

/// The first index from `i` up to `e` whose character is not whitespace.
pub fn skip_space_exec(s: &str, i: usize, e: usize) -> (r: usize)
    requires
        i <= e <= s@.len(),
    ensures
        r == skip_space_to(s@, i as int, e as int),
        i <= r <= e,
{
    let mut k = i;
    while k < e && char_is_space(s.get_char(k))
        invariant
            i <= k <= e <= s@.len(),
            skip_space_to(s@, k as int, e as int) == skip_space_to(s@, i as int, e as int),
        decreases e - k,
    {
        k = k + 1;
    }
    k
}

/// One past the last index before `j` (and at or after `lo`) whose character
/// is not whitespace.
pub fn skip_space_back_exec(s: &str, lo: usize, j: usize) -> (r: usize)
    requires
        lo <= j <= s@.len(),
    ensures
        r == skip_space_back(s@, lo as int, j as int),
        lo <= r <= j,
{
    let mut k = j;
    while k > lo && char_is_space(s.get_char(k - 1))
        invariant
            lo <= k <= j <= s@.len(),
            skip_space_back(s@, lo as int, k as int) == skip_space_back(s@, lo as int, j as int),
        decreases k - lo,
    {
        k = k - 1;
    }
    k
}

/// The end of the word that starts at `i`.
pub fn word_end_exec(s: &str, i: usize, e: usize) -> (r: usize)
    requires
        i <= e <= s@.len(),
    ensures
        r == word_end(s@, i as int, e as int),
        i <= r <= e,
{
    let mut k = i;
    while k < e && !char_is_space(s.get_char(k))
        invariant
            i <= k <= e <= s@.len(),
            word_end(s@, k as int, e as int) == word_end(s@, i as int, e as int),
        decreases e - k,
    {
        k = k + 1;
    }
    k
}

/// The first index from `i` up to `e` holding `c`.
pub fn find_char_exec(s: &str, c: char, i: usize, e: usize) -> (r: usize)
    requires
        i <= e <= s@.len(),
    ensures
        r == find_char(s@, c, i as int, e as int),
        i <= r <= e,
{
    let mut k = i;
    while k < e && s.get_char(k) != c
        invariant
            i <= k <= e <= s@.len(),
            find_char(s@, c, k as int, e as int) == find_char(s@, c, i as int, e as int),
        decreases e - k,
    {
        k = k + 1;
    }
    k
}

/// The characters of `s` from `a` up to `b`, as a new string.
pub fn substring(s: &str, a: usize, b: usize) -> (r: String)
    requires
        a <= b <= s@.len(),
    ensures
        r@ == s@.subrange(a as int, b as int),
{
    s.substring_char(a, b).to_owned()
}

pub proof fn lemma_skip_space_back_bounds(s: Seq<char>, lo: int, j: int)
    requires
        0 <= lo <= j <= s.len(),
    ensures
        lo <= skip_space_back(s, lo, j) <= j,
        skip_space_back(s, lo, j) > lo ==> !is_space(s[skip_space_back(s, lo, j) - 1]),
        forall|k: int| skip_space_back(s, lo, j) <= k < j ==> is_space(#[trigger] s[k]),
    decreases j - lo,
{
    if j > lo && is_space(s[j - 1]) {
        lemma_skip_space_back_bounds(s, lo, j - 1);
    }
}

/// Law: trimming cuts only whitespace, and leaves no whitespace at either
/// end.
pub proof fn lemma_trimmed(s: Seq<char>)
    ensures
        exists|a: int, b: int|
            0 <= a <= b <= s.len() && trimmed(s) == s.subrange(a, b) && (forall|k: int|
                0 <= k < a ==> is_space(#[trigger] s[k])) && (forall|k: int|
                b <= k < s.len() ==> is_space(#[trigger] s[k])),
        trimmed(s).len() > 0 ==> !is_space(trimmed(s)[0]) && !is_space(
            trimmed(s)[trimmed(s).len() - 1],
        ),
{
    lemma_skip_space_to(s, 0, s.len() as int);
    let a = skip_space(s, 0);
    lemma_skip_space_back_bounds(s, a, s.len() as int);
    let b = skip_space_back(s, a, s.len() as int);
    assert(trimmed(s) == s.subrange(a, b));
}

/// Returns `s` without leading and trailing whitespace, as `str::trim` does.
pub fn trim(s: &str) -> (r: String)
    ensures
        r@ == trimmed(s@),
{
    let n = s.unicode_len();
    let a = skip_space_exec(s, 0, n);
    let b = skip_space_back_exec(s, a, n);
    substring(s, a, b)
}

/// Skipping whitespace from `i` stops at the first non-whitespace character
/// `m` when everything from `i` up to `m` is whitespace.
pub proof fn lemma_skip_space_to_at(s: Seq<char>, i: int, m: int, e: int)
    requires
        i <= m <= e,
        forall|k: int| i <= k < m ==> is_space(#[trigger] s[k]),
        m == e || !is_space(s[m]),
    ensures
        skip_space_to(s, i, e) == m,
    decreases m - i,
{
    if i < m {
        lemma_skip_space_to_at(s, i + 1, m, e);
    }
}

/// Skipping whitespace back from `j` stops right after the non-whitespace
/// character at `m - 1` when everything from `m` up to `j` is whitespace.
pub proof fn lemma_skip_space_back_at(s: Seq<char>, lo: int, m: int, j: int)
    requires
        lo < m <= j,
        forall|k: int| m <= k < j ==> is_space(#[trigger] s[k]),
        !is_space(s[m - 1]),
    ensures
        skip_space_back(s, lo, j) == m,
    decreases j - m,
{
    if j > m {
        lemma_skip_space_back_at(s, lo, m, j - 1);
    }
}

/// The end of a word that runs up to `m`.
pub proof fn lemma_word_end_at(s: Seq<char>, i: int, m: int, e: int)
    requires
        i <= m <= e,
        forall|k: int| i <= k < m ==> !is_space(#[trigger] s[k]),
        m == e || is_space(s[m]),
    ensures
        word_end(s, i, e) == m,
    decreases m - i,
{
    if i < m {
        lemma_word_end_at(s, i + 1, m, e);
    }
}

} // verus!
