//! Detection of the Solidity version that a source file asks for in its
//! `pragma solidity` directive.
//!
//! Only the first directive counts. Its version expression is made of sets
//! separated by `||`, any of which may be met; a set is made of comparators
//! separated by whitespace, all of which must be met. A comparator is an
//! optional operator (`^`, `~`, `=`, `<`, `>`, `<=`, `>=`) and a version, and
//! means what `semver::VersionReq` makes of it, except that a version without
//! an operator asks for exactly that version. The version detected is the
//! highest version that `slang_solidity` supports and that some set accepts.
use vstd::prelude::*;
use vstd::string::{StrSliceExecFns, StringExecFns};
use crate::cst::{supported_list, supported_versions, SolidityVersion};
use crate::definitions::{Error, ErrorView};
use crate::text::{char_is_space, find_char, is_space, lemma_skip_space_to, skip_space_to, word_end};

verus! {

/// A version requirement of the `semver` crate.
#[verifier::external_type_specification]
#[verifier::external_body]
pub struct ExVersionReq(semver::VersionReq);

/// What `VersionReq::parse` makes of the text: the requirement, or the
/// message of the error.
pub uninterp spec fn version_req_outcome(text: Seq<char>) -> Result<semver::VersionReq, Seq<char>>;

/// Whether the requirement accepts the version (`VersionReq::matches`).
pub uninterp spec fn version_req_matches(req: semver::VersionReq, v: SolidityVersion) -> bool;

/// `VersionReq::parse`: the requirement, or the message of the error.
#[verifier::external_body]
fn parse_version_req(text: &str) -> (r: Result<semver::VersionReq, String>)
    ensures
        match r {
            Ok(q) => version_req_outcome(text@) == Ok::<_, Seq<char>>(q),
            Err(m) => version_req_outcome(text@) == Err::<semver::VersionReq, _>(m@),
        },
{
    semver::VersionReq::parse(text).map_err(|e| e.to_string())
}

/// `VersionReq::matches` of the version.
#[verifier::external_body]
fn req_matches(req: &semver::VersionReq, v: SolidityVersion) -> (r: bool)
    ensures
        r == version_req_matches(*req, v),
{
    req.matches(&semver::Version::new(v.major, v.minor, v.patch))
}

/// The characters of `s`, in order.
pub fn chars_of(s: &str) -> (r: Vec<char>)
    ensures
        r@ == s@,
{
    let mut v: Vec<char> = Vec::new();
    broadcast use vstd::string::axiom_spec_iter;
    for c in iter: s.chars()
        invariant
            v@ == iter.seq().take(iter.index() as int),
            iter.seq() == s@,
    {
        v.push(c);
    }
    v
}

/// The last version that `slang_solidity` supports.
pub open spec fn latest_version() -> SolidityVersion {
    SolidityVersion { major: 0, minor: 8, patch: 28 }
}

/// The version assumed when a source has no `pragma solidity` directive.
pub open spec fn default_version() -> SolidityVersion {
    SolidityVersion { major: 0, minor: 8, patch: 0 }
}

/// The last of the versions that `slang_solidity` supports.
pub fn get_latest_supported_version() -> (r: SolidityVersion)
    ensures
        r == latest_version(),
        supported_list().contains(r),
{
    let versions = supported_versions();
    assert(supported_list().len() == 83);
    let r = versions[versions.len() - 1];
    assert(supported_list()[82] == latest_version());
    r
}

/// Whether `w` stands in `s` at index `i`.
pub open spec fn word_at(s: Seq<char>, i: int, w: Seq<char>) -> bool {
    0 <= i && i + w.len() <= s.len() && s.subrange(i, i + w.len()) == w
}

/// The version expression of a `pragma solidity` directive that starts at
/// `i` (`pragma`, whitespace, `solidity`, then the expression up to the next
/// `;`): where it starts, and where its `;` stands.
pub open spec fn pragma_at(s: Seq<char>, i: int) -> Option<(int, int)> {
    let p = "pragma"@;
    let w = "solidity"@;
    if word_at(s, i, p) {
        let j = skip_space_to(s, i + p.len(), s.len() as int);
        if j > i + p.len() && word_at(s, j, w) {
            let e = find_char(s, ';', j + w.len(), s.len() as int);
            if e < s.len() {
                Some((j + w.len(), e))
            } else {
                None
            }
        } else {
            None
        }
    } else {
        None
    }
}

/// The first `pragma solidity` directive at or after `i`.
pub open spec fn first_pragma(s: Seq<char>, i: int) -> Option<(int, int)>
    decreases s.len() - i,
{
    if i < 0 || i >= s.len() {
        None
    } else {
        match pragma_at(s, i) {
            Some(x) => Some(x),
            None => first_pragma(s, i + 1),
        }
    }
}

/// The first `||` from `i` up to `e` (`e` if there is none).
pub open spec fn find_or(s: Seq<char>, i: int, e: int) -> int
    decreases e - i,
{
    if i + 1 >= e {
        e
    } else if s[i] == '|' && s[i + 1] == '|' {
        i
    } else {
        find_or(s, i + 1, e)
    }
}

pub open spec fn is_op(c: char) -> bool {
    c == '<' || c == '>' || c == '=' || c == '^' || c == '~'
}

/// The end of the run of operator characters that starts at `i`.
pub open spec fn op_end(s: Seq<char>, i: int, e: int) -> int
    decreases e - i,
{
    if i < e && is_op(s[i]) {
        op_end(s, i + 1, e)
    } else {
        i
    }
}

/// The operator from `a` up to `o`; `=` where there is none, since a bare
/// version asks for exactly that version.
pub open spec fn op_text(s: Seq<char>, a: int, o: int) -> Seq<char> {
    if o == a {
        seq!['=']
    } else {
        s.subrange(a, o)
    }
}

/// The comparators from `i` up to `e`: each an operator and the word that
/// follows it, whitespace between them left out.
pub open spec fn comparators(s: Seq<char>, i: int, e: int) -> Seq<Seq<char>>
    decreases e - i,
{
    let a = skip_space_to(s, i, e);
    if i >= e || a >= e {
        Seq::empty()
    } else {
        let o = op_end(s, a, e);
        let b = skip_space_to(s, o, e);
        let c = word_end(s, b, e);
        if c <= i || c > e {
            Seq::empty()
        } else {
            seq![op_text(s, a, o) + s.subrange(b, c)] + comparators(s, c, e)
        }
    }
}

/// The sets of comparators of the version expression from `i` up to `e`,
/// separated by `||`.
pub open spec fn version_sets(s: Seq<char>, i: int, e: int) -> Seq<Seq<Seq<char>>>
    decreases e - i,
{
    let p = find_or(s, i, e);
    if p < i || p + 2 > e {
        seq![comparators(s, i, e)]
    } else {
        seq![comparators(s, i, p)] + version_sets(s, p + 2, e)
    }
}

pub proof fn lemma_highest_accepted_in(sets: Seq<Seq<semver::VersionReq>>, vs: Seq<SolidityVersion>)
    ensures
        highest_accepted(sets, vs) matches Some(v) ==> vs.contains(v),
        highest_accepted(sets, vs) matches Some(v) ==> some_set_accepts(sets, v),
    decreases vs.len(),
{
    if vs.len() > 0 {
        if some_set_accepts(sets, vs.last()) {
            assert(vs[vs.len() - 1] == vs.last());
        } else {
            lemma_highest_accepted_in(sets, vs.drop_last());
            if let Some(v) = highest_accepted(sets, vs) {
                let k = choose|k: int| 0 <= k < vs.drop_last().len() && vs.drop_last()[k] == v;
                assert(vs[k] == v);
            }
        }
    }
}

/// Law: the version detected is always one that `slang_solidity` supports,
/// and one that the directive accepts.
pub proof fn lemma_detected_supported(s: Seq<char>)
    ensures
        detected_version(s) matches Ok(v) ==> supported_list().contains(v),
        first_pragma(s, 0) matches Some((k, e)) ==> (detected_version(s) matches Ok(v)
            ==> compile_sets(version_sets(s, k, e)) matches Ok(sets) && some_set_accepts(sets, v)),
{
    assert(supported_list()[54] == default_version());
    if let Some((k, e)) = first_pragma(s, 0) {
        if let Ok(sets) = compile_sets(version_sets(s, k, e)) {
            lemma_highest_accepted_in(sets, supported_list());
        }
    }
}

/// Law: the latest supported version is supported.
pub proof fn lemma_latest_supported()
    ensures
        supported_list().contains(latest_version()),
{
    assert(supported_list()[82] == latest_version());
}

/// The requirements of the comparators, in order, or the error of the first
/// one that does not parse.
pub open spec fn compile_reqs(cs: Seq<Seq<char>>) -> Result<Seq<semver::VersionReq>, Seq<char>>
    decreases cs.len(),
{
    if cs.len() == 0 {
        Ok(Seq::empty())
    } else {
        match compile_reqs(cs.drop_last()) {
            Err(m) => Err(m),
            Ok(rs) => match version_req_outcome(cs.last()) {
                Err(m) => Err(m),
                Ok(r) => Ok(rs.push(r)),
            },
        }
    }
}

/// The requirements of each set, or the error of the first comparator that
/// does not parse.
pub open spec fn compile_sets(sets: Seq<Seq<Seq<char>>>) -> Result<
    Seq<Seq<semver::VersionReq>>,
    Seq<char>,
>
    decreases sets.len(),
{
    if sets.len() == 0 {
        Ok(Seq::empty())
    } else {
        match compile_sets(sets.drop_last()) {
            Err(m) => Err(m),
            Ok(rs) => match compile_reqs(sets.last()) {
                Err(m) => Err(m),
                Ok(r) => Ok(rs.push(r)),
            },
        }
    }
}

/// Every requirement of the set accepts the version.
pub open spec fn set_accepts(reqs: Seq<semver::VersionReq>, v: SolidityVersion) -> bool {
    forall|k: int| 0 <= k < reqs.len() ==> version_req_matches(#[trigger] reqs[k], v)
}

/// Some set accepts the version.
pub open spec fn some_set_accepts(sets: Seq<Seq<semver::VersionReq>>, v: SolidityVersion) -> bool {
    exists|k: int| 0 <= k < sets.len() && set_accepts(#[trigger] sets[k], v)
}

/// The last of the versions that some set accepts.
pub open spec fn highest_accepted(sets: Seq<Seq<semver::VersionReq>>, vs: Seq<SolidityVersion>) -> Option<
    SolidityVersion,
>
    decreases vs.len(),
{
    if vs.len() == 0 {
        None
    } else if some_set_accepts(sets, vs.last()) {
        Some(vs.last())
    } else {
        highest_accepted(sets, vs.drop_last())
    }
}

/// The version that the source asks for: [`default_version`] without a
/// `pragma solidity` directive; an [`ErrorView::ParsingError`] when a
/// comparator of the first directive does not parse; otherwise the highest
/// supported version that the directive accepts, or
/// [`ErrorView::UnsupportedVersion`] when there is none.
pub open spec fn detected_version(s: Seq<char>) -> Result<SolidityVersion, ErrorView> {
    match first_pragma(s, 0) {
        None => Ok(default_version()),
        Some((k, e)) => match compile_sets(version_sets(s, k, e)) {
            Err(m) => Err(ErrorView::ParsingError(m)),
            Ok(sets) => match highest_accepted(sets, supported_list()) {
                Some(v) => Ok(v),
                None => Err(ErrorView::UnsupportedVersion),
            },
        },
    }
}

pub proof fn lemma_op_end(s: Seq<char>, i: int, e: int)
    requires
        i <= e,
    ensures
        i <= op_end(s, i, e) <= e,
    decreases e - i,
{
    if i < e && is_op(s[i]) {
        lemma_op_end(s, i + 1, e);
    }
}

pub proof fn lemma_word_end(s: Seq<char>, i: int, e: int)
    requires
        i <= e,
    ensures
        i <= word_end(s, i, e) <= e,
    decreases e - i,
{
    if i < e && !is_space(s[i]) {
        lemma_word_end(s, i + 1, e);
    }
}

pub proof fn lemma_find_or(s: Seq<char>, i: int, e: int)
    requires
        i <= e,
    ensures
        i <= find_or(s, i, e) <= e,
        find_or(s, i, e) < e ==> find_or(s, i, e) + 2 <= e,
    decreases e - i,
{
    if i + 1 < e && !(s[i] == '|' && s[i + 1] == '|') {
        lemma_find_or(s, i + 1, e);
    }
}

/// The first index from `i` up to `e` whose character is not whitespace.
fn skip_space_in(s: &Vec<char>, i: usize, e: usize) -> (r: usize)
    requires
        i <= e <= s@.len(),
    ensures
        r == skip_space_to(s@, i as int, e as int),
        i <= r <= e,
{
    let mut k = i;
    while k < e && char_is_space(s[k])
        invariant
            i <= k <= e <= s@.len(),
            skip_space_to(s@, k as int, e as int) == skip_space_to(s@, i as int, e as int),
        decreases e - k,
    {
        k = k + 1;
    }
    k
}

/// The first index from `i` up to `e` whose character is whitespace.
fn word_end_in(s: &Vec<char>, i: usize, e: usize) -> (r: usize)
    requires
        i <= e <= s@.len(),
    ensures
        r == word_end(s@, i as int, e as int),
        i <= r <= e,
{
    let mut k = i;
    while k < e && !char_is_space(s[k])
        invariant
            i <= k <= e <= s@.len(),
            word_end(s@, k as int, e as int) == word_end(s@, i as int, e as int),
        decreases e - k,
    {
        k = k + 1;
    }
    k
}

/// The first index from `i` up to `e` holding `c`.
fn find_char_in(s: &Vec<char>, c: char, i: usize, e: usize) -> (r: usize)
    requires
        i <= e <= s@.len(),
    ensures
        r == find_char(s@, c, i as int, e as int),
        i <= r <= e,
{
    let mut k = i;
    while k < e && s[k] != c
        invariant
            i <= k <= e <= s@.len(),
            find_char(s@, c, k as int, e as int) == find_char(s@, c, i as int, e as int),
        decreases e - k,
    {
        k = k + 1;
    }
    k
}

fn char_is_op(c: char) -> (r: bool)
    ensures
        r == is_op(c),
{
    c == '<' || c == '>' || c == '=' || c == '^' || c == '~'
}

/// The end of the run of operator characters that starts at `i`.
fn op_end_in(s: &Vec<char>, i: usize, e: usize) -> (r: usize)
    requires
        i <= e <= s@.len(),
    ensures
        r == op_end(s@, i as int, e as int),
        i <= r <= e,
{
    let mut k = i;
    while k < e && char_is_op(s[k])
        invariant
            i <= k <= e <= s@.len(),
            op_end(s@, k as int, e as int) == op_end(s@, i as int, e as int),
        decreases e - k,
    {
        k = k + 1;
    }
    k
}

/// The first `||` from `i` up to `e`.
fn find_or_in(s: &Vec<char>, i: usize, e: usize) -> (r: usize)
    requires
        i <= e <= s@.len(),
    ensures
        r == find_or(s@, i as int, e as int),
        i <= r <= e,
        r < e ==> r + 2 <= e,
{
    proof {
        lemma_find_or(s@, i as int, e as int);
    }
    let mut k = i;
    while e > 0 && k < e - 1 && !(s[k] == '|' && s[k + 1] == '|')
        invariant
            i <= k <= e <= s@.len(),
            find_or(s@, k as int, e as int) == find_or(s@, i as int, e as int),
        decreases e - k,
    {
        k = k + 1;
    }
    if e > 0 && k < e - 1 {
        k
    } else {
        e
    }
}

/// Whether `w` stands in `s` at index `i`.
fn word_at_in(s: &Vec<char>, i: usize, w: &Vec<char>) -> (r: bool)
    requires
        i <= s@.len(),
    ensures
        r == word_at(s@, i as int, w@),
{
    let n = s.len();
    if w.len() > n - i {
        return false;
    }
    let mut k: usize = 0;
    while k < w.len()
        invariant
            n == s@.len(),
            i + w@.len() <= n,
            k <= w@.len(),
            forall|j: int| 0 <= j < k ==> s@[i + j] == w@[j],
        decreases w.len() - k,
    {
        if s[i + k] != w[k] {
            assert(s@.subrange(i as int, i + w@.len())[k as int] != w@[k as int]);
            return false;
        }
        k = k + 1;
    }
    assert(s@.subrange(i as int, i + w@.len()) =~= w@);
    true
}

/// The version expression of a `pragma solidity` directive that starts at
/// `i`.
fn pragma_at_in(s: &Vec<char>, i: usize, p: &Vec<char>, w: &Vec<char>) -> (r: Option<(usize, usize)>)
    requires
        i <= s@.len(),
        p@ == "pragma"@,
        w@ == "solidity"@,
    ensures
        match r {
            Some((k, e)) => pragma_at(s@, i as int) == Some((k as int, e as int)) && k <= e < s@.len(),
            None => pragma_at(s@, i as int) is None,
        },
{
    let n = s.len();
    if !word_at_in(s, i, p) {
        return None;
    }
    let j = skip_space_in(s, i + p.len(), n);
    if j > i + p.len() && word_at_in(s, j, w) {
        let k = j + w.len();
        let e = find_char_in(s, ';', k, s.len());
        if e < s.len() {
            Some((k, e))
        } else {
            None
        }
    } else {
        None
    }
}

/// The first `pragma solidity` directive of the text.
fn first_pragma_in(s: &Vec<char>) -> (r: Option<(usize, usize)>)
    ensures
        match r {
            Some((k, e)) => first_pragma(s@, 0) == Some((k as int, e as int)) && k <= e < s@.len(),
            None => first_pragma(s@, 0) is None,
        },
{
    let p = chars_of("pragma");
    let w = chars_of("solidity");
    let mut i: usize = 0;
    while i < s.len()
        invariant
            i <= s@.len(),
            p@ == "pragma"@,
            w@ == "solidity"@,
            first_pragma(s@, 0) == first_pragma(s@, i as int),
        decreases s.len() - i,
    {
        match pragma_at_in(s, i, &p, &w) {
            Some(x) => {
                return Some(x);
            },
            None => {},
        }
        i = i + 1;
    }
    None
}

pub proof fn lemma_compile_reqs_push(cs: Seq<Seq<char>>, c: Seq<char>)
    ensures
        compile_reqs(cs.push(c)) == match compile_reqs(cs) {
            Err(m) => Err(m),
            Ok(rs) => match version_req_outcome(c) {
                Err(m) => Err(m),
                Ok(r) => Ok(rs.push(r)),
            },
        },
{
    assert(cs.push(c).drop_last() =~= cs);
}

pub proof fn lemma_compile_reqs_err(a: Seq<Seq<char>>, b: Seq<Seq<char>>)
    requires
        compile_reqs(a) is Err,
    ensures
        compile_reqs(a + b) == compile_reqs(a),
    decreases b.len(),
{
    if b.len() == 0 {
        assert(a + b =~= a);
    } else {
        lemma_compile_reqs_err(a, b.drop_last());
        assert((a + b).drop_last() =~= a + b.drop_last());
    }
}

pub proof fn lemma_compile_sets_push(sets: Seq<Seq<Seq<char>>>, c: Seq<Seq<char>>)
    ensures
        compile_sets(sets.push(c)) == match compile_sets(sets) {
            Err(m) => Err(m),
            Ok(rs) => match compile_reqs(c) {
                Err(m) => Err(m),
                Ok(r) => Ok(rs.push(r)),
            },
        },
{
    assert(sets.push(c).drop_last() =~= sets);
}

pub proof fn lemma_compile_sets_err(a: Seq<Seq<Seq<char>>>, b: Seq<Seq<Seq<char>>>)
    requires
        compile_sets(a) is Err,
    ensures
        compile_sets(a + b) == compile_sets(a),
    decreases b.len(),
{
    if b.len() == 0 {
        assert(a + b =~= a);
    } else {
        lemma_compile_sets_err(a, b.drop_last());
        assert((a + b).drop_last() =~= a + b.drop_last());
    }
}

/// The requirements of the comparators from `i` up to `e`, or the error of
/// the first that does not parse.
fn comparator_reqs(src: &str, s: &Vec<char>, i: usize, e: usize) -> (r: Result<
    Vec<semver::VersionReq>,
    String,
>)
    requires
        s@ == src@,
        i <= e <= s@.len(),
    ensures
        match r {
            Ok(v) => compile_reqs(comparators(s@, i as int, e as int)) == Ok::<_, Seq<char>>(v@),
            Err(m) => compile_reqs(comparators(s@, i as int, e as int)) == Err::<
                Seq<semver::VersionReq>,
                _,
            >(m@),
        },
{
    let ghost all = comparators(s@, i as int, e as int);
    let ghost mut done: Seq<Seq<char>> = Seq::empty();
    let mut out: Vec<semver::VersionReq> = Vec::new();
    let mut cur = i;
    assert(all =~= done + comparators(s@, cur as int, e as int));
    loop
        invariant
            s@ == src@,
            i <= cur <= e <= s@.len(),
            all == comparators(s@, i as int, e as int),
            all == done + comparators(s@, cur as int, e as int),
            compile_reqs(done) == Ok::<_, Seq<char>>(out@),
        decreases e - cur,
    {
        let a = skip_space_in(s, cur, e);
        if a >= e {
            assert(comparators(s@, cur as int, e as int) =~= Seq::<Seq<char>>::empty());
            assert(all =~= done);
            return Ok(out);
        }
        let o = op_end_in(s, a, e);
        let b = skip_space_in(s, o, e);
        let c = word_end_in(s, b, e);
        proof {
            lemma_skip_space_to(s@, cur as int, e as int);
            if o == a {
                if is_op(s@[a as int]) {
                    lemma_op_end(s@, a + 1, e as int);
                }
                assert(!is_op(s@[a as int]));
                assert(!is_space(s@[a as int]));
                assert(b == a);
                lemma_word_end(s@, a + 1, e as int);
            }
        }
        assert(c > cur && c <= e);
        let ghost text = op_text(s@, a as int, o as int) + s@.subrange(b as int, c as int);
        let mut t = if o == a {
            proof {
                reveal_strlit("=");
            }
            String::from_str("=")
        } else {
            String::from_str(src.substring_char(a, o))
        };
        t.append(src.substring_char(b, c));
        assert(t@ == text);
        assert(comparators(s@, cur as int, e as int) == seq![text] + comparators(
            s@,
            c as int,
            e as int,
        ));
        proof {
            lemma_compile_reqs_push(done, text);
            assert(done + comparators(s@, cur as int, e as int) =~= done.push(text) + comparators(
                s@,
                c as int,
                e as int,
            ));
        }
        match parse_version_req(t.as_str()) {
            Ok(q) => {
                out.push(q);
            },
            Err(m) => {
                proof {
                    lemma_compile_reqs_err(done.push(text), comparators(s@, c as int, e as int));
                }
                return Err(m);
            },
        }
        proof {
            done = done.push(text);
        }
        cur = c;
    }
}

/// The views of the requirements of each set.
pub open spec fn reqs_view(v: Seq<Vec<semver::VersionReq>>) -> Seq<Seq<semver::VersionReq>> {
    v.map_values(|x: Vec<semver::VersionReq>| x@)
}

/// The requirements of each set of the version expression from `i` up to
/// `e`, or the error of the first comparator that does not parse.
fn version_set_reqs(src: &str, s: &Vec<char>, i: usize, e: usize) -> (r: Result<
    Vec<Vec<semver::VersionReq>>,
    String,
>)
    requires
        s@ == src@,
        i <= e <= s@.len(),
    ensures
        match r {
            Ok(v) => compile_sets(version_sets(s@, i as int, e as int)) == Ok::<_, Seq<char>>(
                reqs_view(v@),
            ),
            Err(m) => compile_sets(version_sets(s@, i as int, e as int)) == Err::<
                Seq<Seq<semver::VersionReq>>,
                _,
            >(m@),
        },
{
    let ghost all = version_sets(s@, i as int, e as int);
    let ghost mut done: Seq<Seq<Seq<char>>> = Seq::empty();
    let mut out: Vec<Vec<semver::VersionReq>> = Vec::new();
    let mut cur = i;
    assert(all =~= done + version_sets(s@, cur as int, e as int));
    assert(reqs_view(out@) =~= Seq::<Seq<semver::VersionReq>>::empty());
    loop
        invariant
            s@ == src@,
            i <= cur <= e <= s@.len(),
            all == version_sets(s@, i as int, e as int),
            all == done + version_sets(s@, cur as int, e as int),
            compile_sets(done) == Ok::<_, Seq<char>>(reqs_view(out@)),
        decreases e - cur,
    {
        let p = find_or_in(s, cur, e);
        let last = p >= e;
        let stop = if last {
            e
        } else {
            p
        };
        let ghost part = comparators(s@, cur as int, stop as int);
        proof {
            lemma_compile_sets_push(done, part);
            if last {
                assert(version_sets(s@, cur as int, e as int) == seq![part]);
                assert(done + version_sets(s@, cur as int, e as int) =~= done.push(part));
            } else {
                assert(version_sets(s@, cur as int, e as int) == seq![part] + version_sets(
                    s@,
                    p + 2,
                    e as int,
                ));
                assert(done + version_sets(s@, cur as int, e as int) =~= done.push(part)
                    + version_sets(s@, p + 2, e as int));
            }
        }
        match comparator_reqs(src, s, cur, stop) {
            Ok(reqs) => {
                let ghost before = out@;
                out.push(reqs);
                assert(reqs_view(out@) =~= reqs_view(before).push(reqs@));
            },
            Err(m) => {
                proof {
                    if !last {
                        lemma_compile_sets_err(done.push(part), version_sets(s@, p + 2, e as int));
                    }
                }
                return Err(m);
            },
        }
        proof {
            done = done.push(part);
        }
        if last {
            assert(all =~= done);
            return Ok(out);
        }
        cur = p + 2;
    }
}

/// Whether every requirement of the set accepts the version.
fn set_accepts_exec(reqs: &Vec<semver::VersionReq>, v: SolidityVersion) -> (r: bool)
    ensures
        r == set_accepts(reqs@, v),
{
    let mut k: usize = 0;
    while k < reqs.len()
        invariant
            k <= reqs@.len(),
            forall|j: int| 0 <= j < k ==> version_req_matches(#[trigger] reqs@[j], v),
        decreases reqs.len() - k,
    {
        if !req_matches(&reqs[k], v) {
            return false;
        }
        k = k + 1;
    }
    true
}

/// Whether some set accepts the version.
fn some_set_accepts_exec(sets: &Vec<Vec<semver::VersionReq>>, v: SolidityVersion) -> (r: bool)
    ensures
        r == some_set_accepts(reqs_view(sets@), v),
{
    let mut k: usize = 0;
    while k < sets.len()
        invariant
            k <= sets@.len(),
            forall|j: int| 0 <= j < k ==> !set_accepts(#[trigger] reqs_view(sets@)[j], v),
        decreases sets.len() - k,
    {
        if set_accepts_exec(&sets[k], v) {
            assert(set_accepts(reqs_view(sets@)[k as int], v));
            return true;
        }
        k = k + 1;
    }
    false
}

/// The last of the versions that some set accepts.
fn highest_accepted_exec(sets: &Vec<Vec<semver::VersionReq>>, vs: &Vec<SolidityVersion>) -> (r: Option<
    SolidityVersion,
>)
    ensures
        r == highest_accepted(reqs_view(sets@), vs@),
{
    let mut n = vs.len();
    assert(vs@.take(n as int) =~= vs@);
    while n > 0
        invariant
            n <= vs@.len(),
            highest_accepted(reqs_view(sets@), vs@) == highest_accepted(
                reqs_view(sets@),
                vs@.take(n as int),
            ),
        decreases n,
    {
        let v = vs[n - 1];
        assert(vs@.take(n as int).last() == v);
        assert(vs@.take(n as int).drop_last() =~= vs@.take(n - 1));
        if some_set_accepts_exec(sets, v) {
            return Some(v);
        }
        n = n - 1;
    }
    None
}

/// Detects the Solidity version that the source asks for in its first
/// `pragma solidity` directive (see the module's documentation).
pub fn detect_solidity_version(src: &str) -> (r: Result<SolidityVersion, Error>)
    ensures
        match r {
            Ok(v) => detected_version(src@) == Ok::<_, ErrorView>(v),
            Err(e) => detected_version(src@) == Err::<SolidityVersion, _>(e.deep_view()),
        },
{
    let s = chars_of(src);
    let (k, e) = match first_pragma_in(&s) {
        Some(x) => x,
        None => {
            return Ok(SolidityVersion { major: 0, minor: 8, patch: 0 });
        },
    };
    let sets = match version_set_reqs(src, &s, k, e) {
        Ok(v) => v,
        Err(m) => {
            return Err(Error::ParsingError(m));
        },
    };
    let versions = supported_versions();
    match highest_accepted_exec(&sets, &versions) {
        Some(v) => Ok(v),
        None => Err(Error::UnsupportedVersion),
    }
}

} // verus!
