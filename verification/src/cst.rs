//! The concrete syntax tree that `slang_solidity` builds, as the rest of the
//! library sees it.
//!
//! A [`TreeCursor`] walks slang's tree in depth-first pre-order. Its contents
//! are described by [`cursor_tree`]: the tree's nodes listed in pre-order, each
//! with the index one past its last descendant (`end`) and the index of its
//! parent. [`cursor_place`] says where the cursor stands: the node it was rooted
//! at, the node it points to, and whether the walk is over.
use vstd::prelude::*;
use slang_solidity::cst::{Cursor, NonterminalKind, Query, QueryMatch};
use slang_solidity::parser::Parser;

verus! {

/// A position in the source text.
#[derive(Clone, Copy, Debug, PartialEq, Eq)]
pub struct TextIndex {
    pub utf8: usize,
    pub utf16: usize,
    pub line: usize,
    pub column: usize,
}

/// A span of source text, from `start` (inclusive) to `end` (exclusive).
#[derive(Clone, Copy, Debug, PartialEq, Eq)]
pub struct TextRange {
    pub start: TextIndex,
    pub end: TextIndex,
}

/// One node of the syntax tree.
pub struct NodeView {
    /// Whether the node is a terminal (a token) or a nonterminal.
    pub terminal: bool,
    /// The name of the node's kind, such as `Identifier` or `FunctionDefinition`.
    pub kind: Seq<char>,
    /// The name of the edge that links the node to its parent, if that edge has one.
    pub label: Option<Seq<char>>,
    /// The source text that the node spans.
    pub text: Seq<char>,
    pub range: TextRange,
    /// Index of the parent node; the root has none.
    pub parent: int,
    /// One past the index of the node's last descendant.
    pub end: int,
}

/// Where a cursor stands in its tree.
pub struct Place {
    /// The node the cursor was rooted at: it never leaves that node's subtree.
    pub root: int,
    /// The node the cursor points to.
    pub pos: int,
    /// Whether the walk is over (the cursor then points to its root).
    pub done: bool,
}

/// A cursor over a syntax tree built by `slang_solidity`.
#[verifier::external_body]
pub struct TreeCursor {
    inner: Cursor,
}

/// The nodes of the tree that the cursor walks, in pre-order.
pub uninterp spec fn cursor_tree(c: TreeCursor) -> Seq<NodeView>;

/// Where the cursor stands in [`cursor_tree`].
pub uninterp spec fn cursor_place(c: TreeCursor) -> Place;

/// The nodes form a tree laid out in pre-order: index 0 is the root, each
/// subtree is a contiguous block, and each node's parent is the nearest node
/// before it whose block holds it.
pub open spec fn tree_wf(t: Seq<NodeView>) -> bool {
    &&& t.len() > 0
    &&& t[0].end == t.len()
    &&& forall|i: int| 0 <= i < t.len() ==> i < #[trigger] t[i].end <= t.len()
    &&& forall|i: int| 0 <= i < t.len() && #[trigger] t[i].terminal ==> t[i].end == i + 1
    &&& forall|i: int, j: int|
        0 <= i < j < t.len() && j < #[trigger] t[i].end ==> #[trigger] t[j].end <= t[i].end
    &&& forall|j: int|
        0 < j < t.len() ==> 0 <= #[trigger] t[j].parent < j && j < t[t[j].parent].end
    &&& forall|i: int, j: int|
        #![trigger t[j].parent, t[i].end]
        0 < j < t.len() && t[j].parent < i < j ==> t[i].end <= j
}

/// The place lies within the tree, inside the subtree of its root.
pub open spec fn place_wf(t: Seq<NodeView>, p: Place) -> bool {
    &&& 0 <= p.root <= p.pos < t[p.root].end
    &&& p.root < t.len()
    &&& p.done ==> p.pos == p.root
}

pub open spec fn cursor_wf(c: TreeCursor) -> bool {
    tree_wf(cursor_tree(c)) && place_wf(cursor_tree(c), cursor_place(c))
}

/// The node the cursor points to.
pub open spec fn current(c: TreeCursor) -> NodeView {
    cursor_tree(c)[cursor_place(c).pos]
}

/// The label that the cursor reports: none at the node it was rooted at.
pub open spec fn current_label(c: TreeCursor) -> Option<Seq<char>> {
    if cursor_place(c).pos == cursor_place(c).root {
        None
    } else {
        current(c).label
    }
}

/// Where `go_to_next` leaves a cursor: the next node in pre-order inside the
/// root's subtree, or the root once the walk is over.
pub open spec fn next_place(t: Seq<NodeView>, p: Place) -> Place {
    if !p.done && p.pos + 1 < t[p.root].end {
        Place { root: p.root, pos: p.pos + 1, done: false }
    } else {
        Place { root: p.root, pos: p.root, done: true }
    }
}

/// `Cursor::clone`: the same tree and place.
#[verifier::external_body]
pub(crate) fn clone_cursor(c: &TreeCursor) -> (r: TreeCursor)
    ensures
        cursor_tree(r) == cursor_tree(*c),
        cursor_place(r) == cursor_place(*c),
{
    TreeCursor { inner: c.inner.clone() }
}

/// `Cursor::spawn`: a cursor over the same tree, rooted at the current node.
#[verifier::external_body]
pub(crate) fn spawn(c: &TreeCursor) -> (r: TreeCursor)
    ensures
        cursor_tree(r) == cursor_tree(*c),
        cursor_place(r) == (Place {
            root: cursor_place(*c).pos,
            pos: cursor_place(*c).pos,
            done: false,
        }),
{
    TreeCursor { inner: c.inner.spawn() }
}

/// `Cursor::go_to_next`: moves to the next node in pre-order inside the
/// subtree the cursor is rooted at; when there is none, the cursor returns to
/// its root, is completed, and `false` comes back.
#[verifier::external_body]
pub(crate) fn go_to_next(c: &mut TreeCursor) -> (r: bool)
    ensures
        cursor_tree(*final(c)) == cursor_tree(*old(c)),
        cursor_place(*final(c)) == next_place(cursor_tree(*old(c)), cursor_place(*old(c))),
        r == !cursor_place(*final(c)).done,
{
    c.inner.go_to_next()
}

/// `Cursor::go_to_parent`: moves to the parent, unless the cursor is at the
/// node it was rooted at; there it is completed and `false` comes back.
#[verifier::external_body]
pub(crate) fn go_to_parent(c: &mut TreeCursor) -> (r: bool)
    ensures
        cursor_tree(*final(c)) == cursor_tree(*old(c)),
        r == (cursor_place(*old(c)).pos != cursor_place(*old(c)).root),
        r ==> cursor_place(*final(c)) == (Place {
            root: cursor_place(*old(c)).root,
            pos: cursor_tree(*old(c))[cursor_place(*old(c)).pos].parent,
            done: cursor_place(*old(c)).done,
        }),
        !r ==> cursor_place(*final(c)) == (Place {
            root: cursor_place(*old(c)).root,
            pos: cursor_place(*old(c)).pos,
            done: true,
        }),
{
    c.inner.go_to_parent()
}

/// `Cursor::go_to_first_child`: moves to the node right after the current
/// one when that node is its first child (the current node has children and
/// the walk is not over).
#[verifier::external_body]
pub(crate) fn go_to_first_child(c: &mut TreeCursor) -> (r: bool)
    ensures
        cursor_tree(*final(c)) == cursor_tree(*old(c)),
        r == (!cursor_place(*old(c)).done && cursor_place(*old(c)).pos + 1 < current(
            *old(c),
        ).end),
        r ==> cursor_place(*final(c)) == (Place {
            pos: cursor_place(*old(c)).pos + 1,
            ..cursor_place(*old(c))
        }),
        !r ==> cursor_place(*final(c)) == cursor_place(*old(c)),
{
    c.inner.go_to_first_child()
}

/// `Cursor::go_to_next_sibling`: moves past the current node's subtree when
/// the node that follows it is still a child of the same parent; the node the
/// cursor was rooted at has no siblings.
#[verifier::external_body]
pub(crate) fn go_to_next_sibling(c: &mut TreeCursor) -> (r: bool)
    ensures
        cursor_tree(*final(c)) == cursor_tree(*old(c)),
        r == (!cursor_place(*old(c)).done && cursor_place(*old(c)).pos != cursor_place(
            *old(c),
        ).root && current(*old(c)).end < cursor_tree(*old(c))[current(*old(c)).parent].end),
        r ==> cursor_place(*final(c)) == (Place {
            pos: current(*old(c)).end,
            ..cursor_place(*old(c))
        }),
        !r ==> cursor_place(*final(c)) == cursor_place(*old(c)),
{
    c.inner.go_to_next_sibling()
}

/// `Node::is_terminal` of the current node.
#[verifier::external_body]
pub(crate) fn node_is_terminal(c: &TreeCursor) -> (r: bool)
    ensures
        r == current(*c).terminal,
{
    c.inner.node().is_terminal()
}

/// The name of the current node's kind (`Node::kind`, displayed).
#[verifier::external_body]
pub(crate) fn node_kind_name(c: &TreeCursor) -> (r: String)
    ensures
        r@ == current(*c).kind,
{
    c.inner.node().kind().to_string()
}

/// `Node::unparse` of the current node: the source text it spans.
#[verifier::external_body]
pub(crate) fn node_text(c: &TreeCursor) -> (r: String)
    ensures
        r@ == current(*c).text,
{
    c.inner.node().unparse()
}

/// `Cursor::text_range` of the current node.
#[verifier::external_body]
pub(crate) fn node_range(c: &TreeCursor) -> (r: TextRange)
    ensures
        r == current(*c).range,
{
    let r = c.inner.text_range();
    TextRange {
        start: TextIndex {
            utf8: r.start.utf8,
            utf16: r.start.utf16,
            line: r.start.line,
            column: r.start.column,
        },
        end: TextIndex { utf8: r.end.utf8, utf16: r.end.utf16, line: r.end.line, column: r.end.column },
    }
}

/// `Cursor::label`, displayed: the name of the edge from the current node's
/// parent.
#[verifier::external_body]
pub(crate) fn node_label(c: &TreeCursor) -> (r: Option<String>)
    ensures
        match r {
            Some(s) => current_label(*c) == Some(s@),
            None => current_label(*c) is None,
        },
{
    c.inner.label().map(|label| label.to_string())
}

/// Whether a node is a terminal of the given kind.
pub open spec fn is_terminal_of(n: NodeView, kind: Seq<char>) -> bool {
    n.terminal && n.kind == kind
}

/// Whether a node is a nonterminal of the given kind.
pub open spec fn is_nonterminal_of(n: NodeView, kind: Seq<char>) -> bool {
    !n.terminal && n.kind == kind
}

/// Whether the current node is a terminal (or a nonterminal, as `terminal`
/// says) of the given kind.
pub fn current_is(c: &TreeCursor, terminal: bool, kind: &str) -> (r: bool)
    ensures
        r == (current(*c).terminal == terminal && current(*c).kind == kind@),
{
    if node_is_terminal(c) != terminal {
        return false;
    }
    let name = node_kind_name(c);
    name == kind.to_owned()
}

/// The concatenation of `f(k)` for `k` from `lo` up to `hi` (exclusive).
pub open spec fn gather<A>(lo: int, hi: int, f: spec_fn(int) -> Seq<A>) -> Seq<A>
    decreases hi - lo,
{
    if hi <= lo {
        Seq::empty()
    } else {
        gather(lo, hi - 1, f) + f(hi - 1)
    }
}

pub proof fn lemma_gather_skip<A>(lo: int, a: int, b: int, f: spec_fn(int) -> Seq<A>)
    requires
        lo <= a <= b,
        forall|k: int| a <= k < b ==> (#[trigger] f(k)).len() == 0,
    ensures
        gather(lo, b, f) == gather(lo, a, f),
    decreases b - a,
{
    if b > a {
        lemma_gather_skip(lo, a, b - 1, f);
        assert(f(b - 1).len() == 0);
        assert(gather(lo, b - 1, f) + f(b - 1) =~= gather(lo, b - 1, f));
    }
}

/// The first index from `lo` up to `hi` whose node satisfies `p`, or `hi`.
pub open spec fn first_from(t: Seq<NodeView>, lo: int, hi: int, p: spec_fn(NodeView) -> bool) -> int
    decreases hi - lo,
{
    if lo >= hi {
        hi
    } else if p(t[lo]) {
        lo
    } else {
        first_from(t, lo + 1, hi, p)
    }
}

pub proof fn lemma_first_from(t: Seq<NodeView>, lo: int, hi: int, p: spec_fn(NodeView) -> bool)
    requires
        lo <= hi,
    ensures
        lo <= first_from(t, lo, hi, p) <= hi,
        first_from(t, lo, hi, p) < hi ==> p(t[first_from(t, lo, hi, p)]),
        forall|k: int| lo <= k < first_from(t, lo, hi, p) ==> !p(#[trigger] t[k]),
    decreases hi - lo,
{
    if lo < hi && !p(t[lo]) {
        lemma_first_from(t, lo + 1, hi, p);
    }
}

/// Inside the subtree of `r`, every node but `r` has its parent in that
/// subtree too.
pub proof fn lemma_parent_in_subtree(t: Seq<NodeView>, r: int, j: int)
    requires
        tree_wf(t),
        0 <= r < t.len(),
        r < j < t[r].end,
    ensures
        r <= t[j].parent < j,
{
    assert(j < t.len());
    let p = t[j].parent;
    if p < r {
        assert(t[r].end <= j);
    }
}

/// The node right after a node with children is its first child.
pub proof fn lemma_first_child(t: Seq<NodeView>, a: int)
    requires
        tree_wf(t),
        0 <= a < t.len(),
        a + 1 < t[a].end,
    ensures
        t[a + 1].parent == a,
{
    let p = t[a + 1].parent;
    if p < a {
        assert(t[a].end <= a + 1);
    }
}

/// The node right after the subtree of a child of `a` is the next child of
/// `a`, if it lies inside the subtree of `a`.
pub proof fn lemma_next_sibling(t: Seq<NodeView>, a: int, k: int)
    requires
        tree_wf(t),
        0 <= a < k < t.len(),
        t[k].parent == a,
        forall|i: int| a < i < k ==> #[trigger] t[i].end <= k,
        t[k].end < t[a].end,
    ensures
        t[t[k].end].parent == a,
        forall|i: int| a < i < t[k].end ==> #[trigger] t[i].end <= t[k].end,
{
    let m = t[k].end;
    assert(k < m);
    assert(m < t.len());
    assert forall|i: int| a < i < m implies #[trigger] t[i].end <= m by {
        if i < k {
            assert(t[i].end <= k);
        } else if i > k {
            assert(t[i].end <= t[k].end);
        }
    }
    let p = t[m].parent;
    if p > a {
        assert(t[p].end <= m);
    }
    if p < a {
        assert(t[a].end <= m);
    }
}

/// A compiled query over syntax trees (slang's query language).
#[verifier::external_body]
pub struct SyntaxQuery {
    inner: Query,
}

/// One match of a query.
#[verifier::external_body]
pub struct QueryHit {
    inner: QueryMatch,
}

/// The captures of a match: each capture name of the matched query, with the
/// cursors captured under that name, in order.
pub uninterp spec fn hit_captures(m: QueryHit) -> Map<Seq<char>, Seq<TreeCursor>>;

/// The first cursor captured under `name`, if the query has that capture
/// name: `None` when it has not, `Some(None)` when nothing was captured.
pub open spec fn first_captured(m: QueryHit, name: Seq<char>) -> Option<Option<TreeCursor>> {
    if hit_captures(m).dom().contains(name) {
        if hit_captures(m)[name].len() > 0 {
            Some(Some(hit_captures(m)[name][0]))
        } else {
            Some(None)
        }
    } else {
        None
    }
}

/// What compiling the query text gives: the query, or the message of the
/// error.
pub uninterp spec fn query_outcome(source: Seq<char>) -> Result<SyntaxQuery, Seq<char>>;

/// The matches of the queries in the tree `t` below the place `p`, in the
/// order slang finds them, each with the index of the query it matches.
pub uninterp spec fn query_matches(t: Seq<NodeView>, p: Place, queries: Seq<SyntaxQuery>) -> Seq<
    (usize, QueryHit),
>;

/// `Query::parse`: compiles a query, or gives the message of the error.
#[verifier::external_body]
pub(crate) fn compile_query(source: &str) -> (r: Result<SyntaxQuery, String>)
    ensures
        match r {
            Ok(q) => query_outcome(source@) == Ok::<SyntaxQuery, Seq<char>>(q),
            Err(m) => query_outcome(source@) == Err::<SyntaxQuery, Seq<char>>(m@),
        },
{
    match Query::parse(source) {
        Ok(q) => Ok(SyntaxQuery { inner: q }),
        Err(e) => Err(e.to_string()),
    }
}

/// `Cursor::query`: every match of the queries in the tree below the cursor,
/// each with the index of the query it matches.
#[verifier::external_body]
pub(crate) fn run_queries(c: TreeCursor, queries: &Vec<SyntaxQuery>) -> (r: Vec<(usize, QueryHit)>)
    ensures
        r@ == query_matches(cursor_tree(c), cursor_place(c), queries@),
        forall|k: int| 0 <= k < r@.len() ==> #[trigger] r@[k].0 < queries@.len(),
{
    let qs: Vec<Query> = queries.iter().map(|q| q.inner.clone()).collect();
    c.inner.query(qs).map(|m| (m.query_number, QueryHit { inner: m })).collect()
}

/// `QueryMatch::capture`, keeping the first cursor captured.
#[verifier::external_body]
pub(crate) fn first_capture(m: &QueryHit, name: &str) -> (r: Option<Option<TreeCursor>>)
    ensures
        (r is Some) == hit_captures(*m).dom().contains(name@),
        r matches Some(o) ==> ((o is Some) == (hit_captures(*m)[name@].len() > 0)),
        r matches Some(Some(c)) ==> {
            &&& cursor_tree(c) == cursor_tree(hit_captures(*m)[name@][0])
            &&& cursor_place(c) == cursor_place(hit_captures(*m)[name@][0])
            &&& cursor_wf(c)
        },
{
    m.inner.capture(name).map(|(_, mut captures)| captures.next().map(|c| TreeCursor { inner: c }))
}

/// A version of the Solidity language.
#[derive(Clone, Copy, Debug, PartialEq, Eq)]
pub struct SolidityVersion {
    pub major: u64,
    pub minor: u64,
    pub patch: u64,
}

/// The versions from `first` to `last` (inclusive) of the series `0.minor`.
pub open spec fn version_series(minor: u64, first: u64, last: u64) -> Seq<SolidityVersion> {
    Seq::new(
        (last - first + 1) as nat,
        |k: int| SolidityVersion { major: 0, minor, patch: (first + k) as u64 },
    )
}

/// The versions that `slang_solidity` parses (`Parser::SUPPORTED_VERSIONS`),
/// in increasing order.
pub open spec fn supported_list() -> Seq<SolidityVersion> {
    version_series(4, 11, 26) + version_series(5, 0, 17) + version_series(6, 0, 12)
        + version_series(7, 0, 6) + version_series(8, 0, 28)
}

/// `Parser::SUPPORTED_VERSIONS`.
#[verifier::external_body]
pub(crate) fn supported_versions() -> (r: Vec<SolidityVersion>)
    ensures
        r@ == supported_list(),
{
    Parser::SUPPORTED_VERSIONS.iter().map(
        |v| SolidityVersion { major: v.major, minor: v.minor, patch: v.patch },
    ).collect()
}

/// What slang's parser makes of a source unit.
pub enum ParsedView {
    /// The parser does not support the version.
    Unsupported,
    /// The source has errors; the message of the first one, if there is one.
    Invalid(Option<Seq<char>>),
    /// The source parsed; the nodes of its tree, in pre-order.
    Valid(Seq<NodeView>),
}

/// What slang's parser for `version` makes of `contents` as a source unit.
pub uninterp spec fn parsed_source(version: SolidityVersion, contents: Seq<char>) -> ParsedView;

/// The result of parsing a source unit.
pub enum ParseOutcome {
    Unsupported,
    Invalid(Option<String>),
    Valid(TreeCursor),
}

/// `Parser::create` for the version, then `Parser::parse` of the contents as
/// a source unit: `Unsupported` when the version is not one of
/// `Parser::SUPPORTED_VERSIONS`; else, unless `ParseOutput::is_valid`, the
/// message of the first of `ParseOutput::errors`; else a cursor at the root of
/// the tree (`ParseOutput::create_tree_cursor`).
#[verifier::external_body]
pub(crate) fn parse_to_cursor(version: SolidityVersion, contents: &str) -> (r: ParseOutcome)
    ensures
        (r is Unsupported) == !supported_list().contains(version),
        match r {
            ParseOutcome::Unsupported => parsed_source(version, contents@) is Unsupported,
            ParseOutcome::Invalid(m) => parsed_source(version, contents@) == ParsedView::Invalid(
                match m {
                    Some(s) => Some(s@),
                    None => None,
                },
            ),
            ParseOutcome::Valid(c) => {
                &&& parsed_source(version, contents@) == ParsedView::Valid(cursor_tree(c))
                &&& cursor_wf(c)
                &&& cursor_place(c) == (Place { root: 0, pos: 0, done: false })
            },
        },
{
    let v = semver::Version::new(version.major, version.minor, version.patch);
    let Ok(parser) = Parser::create(v) else {
        return ParseOutcome::Unsupported;
    };
    let output = parser.parse(NonterminalKind::SourceUnit, contents);
    if output.is_valid() {
        ParseOutcome::Valid(TreeCursor { inner: output.create_tree_cursor() })
    } else {
        ParseOutcome::Invalid(output.errors().first().map(|e| e.to_string()))
    }
}

} // verus!
