//! A parser with a `slang_solidity` backend.
use vstd::prelude::*;
use crate::cst::{
    clone_cursor, compile_query, current, current_is, cursor_place, cursor_tree, cursor_wf,
    first_capture, first_captured, first_from, gather, go_to_first_child, go_to_next,
    go_to_next_sibling, go_to_parent, is_nonterminal_of, is_terminal_of,
    lemma_first_child, lemma_first_from, lemma_next_sibling, lemma_parent_in_subtree, node_label,
    node_is_terminal, node_range, node_text, parse_to_cursor, parsed_source, query_matches,
    query_outcome, run_queries, spawn, tree_wf, ParseOutcome, ParsedView,
    NodeView, Place, QueryHit, SolidityVersion, SyntaxQuery, TextRange, TreeCursor,
};
use crate::definitions::{
    empty_view, ids_view, natspec_view, Attributes, ConstructorDefinition, Definition,
    DefinitionKind, DefinitionView, EnumDefinition, Error, ErrorDefinition, ErrorView,
    EventDefinition, FunctionDefinition, Identifier, IdentifierView, ModifierDefinition, Parent,
    ParentView, same_definition, StructDefinition, VariableDeclaration, Visibility,
};
use crate::natspec::{comment_items, parse_comment, with_return_names, NatSpec, NatSpecItemView};
use crate::text::{trim, trimmed};
use crate::version::{
    detect_solidity_version, detected_version, get_latest_supported_version, latest_version,
    lemma_detected_supported, lemma_latest_supported,
};

verus! {

/// The identifier that a terminal node names.
pub open spec fn ident_of(n: NodeView) -> IdentifierView {
    IdentifierView { name: Some(trimmed(n.text)), span: n.range }
}

/// An `Identifier` terminal whose edge, if it has a label, is labeled `name`.
pub open spec fn is_name_identifier(n: NodeView) -> bool {
    is_terminal_of(n, "Identifier"@) && (n.label is None || n.label == Some("name"@))
}

pub open spec fn name_identifier_entry(t: Seq<NodeView>) -> spec_fn(int) -> Seq<IdentifierView> {
    |k: int|
        if is_name_identifier(t[k]) {
            seq![ident_of(t[k])]
        } else {
            Seq::empty()
        }
}

pub open spec fn any_identifier_entry(t: Seq<NodeView>) -> spec_fn(int) -> Seq<IdentifierView> {
    |k: int|
        if is_terminal_of(t[k], "Identifier"@) {
            seq![ident_of(t[k])]
        } else {
            Seq::empty()
        }
}

/// The identifiers below node `q`, in source order, that are labeled `name`
/// (or not labeled at all).
pub open spec fn name_identifiers(t: Seq<NodeView>, q: int) -> Seq<IdentifierView> {
    gather(q + 1, t[q].end, name_identifier_entry(t))
}

/// All the identifiers below node `q`, in source order.
pub open spec fn all_identifiers(t: Seq<NodeView>, q: int) -> Seq<IdentifierView> {
    gather(q + 1, t[q].end, any_identifier_entry(t))
}

/// The identifier at the cursor's node.
fn identifier_here(c: &TreeCursor) -> (r: Identifier)
    ensures
        r.deep_view() == ident_of(current(*c)),
{
    let text = node_text(c);
    Identifier { name: Some(trim(text.as_str())), span: node_range(c) }
}

/// Extracts the identifiers below the cursor's node whose edge label, if
/// there is one, is `name`.
pub fn extract_identifiers(cursor: &TreeCursor) -> (r: Vec<Identifier>)
    requires
        cursor_wf(*cursor),
    ensures
        r.deep_view() == name_identifiers(cursor_tree(*cursor), cursor_place(*cursor).pos),
{
    let ghost t = cursor_tree(*cursor);
    let ghost q = cursor_place(*cursor).pos;
    let ghost f = name_identifier_entry(t);
    let mut cur = spawn(cursor);
    let mut out: Vec<Identifier> = Vec::new();
    loop
        invariant_except_break
            !cursor_place(cur).done,
            q <= cursor_place(cur).pos < t[q].end,
            out.deep_view() == gather(q + 1, cursor_place(cur).pos + 1, f),
        invariant
            cursor_tree(cur) == t,
            tree_wf(t),
            0 <= q < t.len(),
            cursor_place(cur).root == q,
            f == name_identifier_entry(t),
        ensures
            out.deep_view() == gather(q + 1, t[q].end, f),
        decreases t[q].end - cursor_place(cur).pos,
    {
        if !go_to_next(&mut cur) {
            break;
        }
        let ghost k = cursor_place(cur).pos;
        let ghost before = out.deep_view();
        if current_is(&cur, true, "Identifier") {
            let label = node_label(&cur);
            let accepted = match label {
                Some(l) => l == "name".to_owned(),
                None => true,
            };
            if accepted {
                let id = identifier_here(&cur);
                out.push(id);
                assert(out.deep_view() =~= before + f(k));
            } else {
                assert(before + f(k) =~= before);
            }
        } else {
            assert(before + f(k) =~= before);
        }
    }
    out
}

/// Extracts all the identifiers below the cursor's node, such as the members
/// of an enum.
pub fn extract_enum_members(cursor: &TreeCursor) -> (r: Vec<Identifier>)
    requires
        cursor_wf(*cursor),
    ensures
        r.deep_view() == all_identifiers(cursor_tree(*cursor), cursor_place(*cursor).pos),
{
    let ghost t = cursor_tree(*cursor);
    let ghost q = cursor_place(*cursor).pos;
    let ghost f = any_identifier_entry(t);
    let mut cur = spawn(cursor);
    let mut out: Vec<Identifier> = Vec::new();
    loop
        invariant_except_break
            !cursor_place(cur).done,
            q <= cursor_place(cur).pos < t[q].end,
            out.deep_view() == gather(q + 1, cursor_place(cur).pos + 1, f),
        invariant
            cursor_tree(cur) == t,
            tree_wf(t),
            0 <= q < t.len(),
            cursor_place(cur).root == q,
            f == any_identifier_entry(t),
        ensures
            out.deep_view() == gather(q + 1, t[q].end, f),
        decreases t[q].end - cursor_place(cur).pos,
    {
        if !go_to_next(&mut cur) {
            break;
        }
        let ghost k = cursor_place(cur).pos;
        let ghost before = out.deep_view();
        if current_is(&cur, true, "Identifier") {
            let id = identifier_here(&cur);
            out.push(id);
            assert(out.deep_view() =~= before + f(k));
        } else {
            assert(before + f(k) =~= before);
        }
    }
    out
}

pub open spec fn param_entry(t: Seq<NodeView>, kind: Seq<char>) -> spec_fn(int) -> Seq<IdentifierView> {
    |j: int|
        if is_nonterminal_of(t[j], kind) {
            if name_identifiers(t, j).len() > 0 {
                name_identifiers(t, j)
            } else {
                seq![IdentifierView { name: None, span: t[j].range }]
            }
        } else {
            Seq::empty()
        }
}

/// The parameters below node `q`: for each nonterminal of the given kind, in
/// source order, the identifiers labeled `name` below it, or an unnamed
/// identifier spanning the whole parameter when it has none.
pub open spec fn params_below(t: Seq<NodeView>, q: int, kind: Seq<char>) -> Seq<IdentifierView> {
    gather(q + 1, t[q].end, param_entry(t, kind))
}

/// Extracts the parameters of a function-like source item.
///
/// `kind` names the kind of nonterminal that holds each parameter's
/// `Identifier` (`Parameter`, `EventParameter`).
pub fn extract_params(cursor: &TreeCursor, kind: &str) -> (r: Vec<Identifier>)
    requires
        cursor_wf(*cursor),
    ensures
        r.deep_view() == params_below(cursor_tree(*cursor), cursor_place(*cursor).pos, kind@),
{
    let ghost t = cursor_tree(*cursor);
    let ghost q = cursor_place(*cursor).pos;
    let ghost f = param_entry(t, kind@);
    let mut cur = spawn(cursor);
    let mut out: Vec<Identifier> = Vec::new();
    loop
        invariant_except_break
            !cursor_place(cur).done,
            q <= cursor_place(cur).pos < t[q].end,
            out.deep_view() == gather(q + 1, cursor_place(cur).pos + 1, f),
        invariant
            cursor_tree(cur) == t,
            tree_wf(t),
            0 <= q < t.len(),
            cursor_place(cur).root == q,
            f == param_entry(t, kind@),
        ensures
            out.deep_view() == gather(q + 1, t[q].end, f),
        decreases t[q].end - cursor_place(cur).pos,
    {
        if !go_to_next(&mut cur) {
            break;
        }
        let ghost k = cursor_place(cur).pos;
        let ghost before = out.deep_view();
        if current_is(&cur, false, kind) {
            let mut ids = extract_identifiers(&cur);
            if ids.len() == 0 {
                out.push(Identifier { name: None, span: node_range(&cur) });
                assert(out.deep_view() =~= before + f(k));
            } else {
                let ghost ids_view = ids.deep_view();
                out.append(&mut ids);
                assert(out.deep_view() =~= before + ids_view);
            }
        } else {
            assert(before + f(k) =~= before);
        }
    }
    out
}

/// The parameter nodes of the given kind below node `q`, in source order.
pub open spec fn param_nodes(t: Seq<NodeView>, q: int, kind: Seq<char>) -> Seq<int> {
    gather(q + 1, t[q].end, param_node_entry(t, kind))
}

pub open spec fn param_node_entry(t: Seq<NodeView>, kind: Seq<char>) -> spec_fn(int) -> Seq<int> {
    |j: int|
        if is_nonterminal_of(t[j], kind) {
            seq![j]
        } else {
            Seq::empty()
        }
}

/// The entry of a parameter node that names at most one identifier: that
/// identifier, or an unnamed entry spanning the parameter.
pub open spec fn param_of(t: Seq<NodeView>, j: int) -> IdentifierView {
    if name_identifiers(t, j).len() > 0 {
        name_identifiers(t, j)[0]
    } else {
        IdentifierView { name: None, span: t[j].range }
    }
}

proof fn lemma_params_map(t: Seq<NodeView>, kind: Seq<char>, lo: int, hi: int)
    requires
        lo <= hi,
        forall|k: int|
            lo <= k < hi && is_nonterminal_of(t[k], kind) ==> #[trigger] name_identifiers(t, k).len()
                <= 1,
    ensures
        gather(lo, hi, param_entry(t, kind)) == gather(lo, hi, param_node_entry(t, kind)).map_values(
            |j: int| param_of(t, j),
        ),
    decreases hi - lo,
{
    if hi > lo {
        lemma_params_map(t, kind, lo, hi - 1);
        let k = hi - 1;
        let nodes = gather(lo, k, param_node_entry(t, kind));
        if is_nonterminal_of(t[k], kind) {
            assert(name_identifiers(t, k).len() <= 1);
            if name_identifiers(t, k).len() == 1 {
                assert(name_identifiers(t, k) =~= seq![param_of(t, k)]);
            }
            assert((nodes + seq![k]).map_values(|j: int| param_of(t, j)) =~= nodes.map_values(
                |j: int| param_of(t, j),
            ) + seq![param_of(t, k)]);
        } else {
            assert(nodes + Seq::<int>::empty() =~= nodes);
            assert(gather(lo, k, param_entry(t, kind)) + Seq::<IdentifierView>::empty() =~= gather(
                lo,
                k,
                param_entry(t, kind),
            ));
        }
    }
}

/// Law: when each parameter names at most one identifier,
/// [`extract_params`] gives one entry per parameter node below the cursor's
/// node, in source order: the parameter's name and its span, or, for an
/// unnamed parameter, no name and the parameter's span.
pub proof fn lemma_params_one_per_node(t: Seq<NodeView>, q: int, kind: Seq<char>)
    requires
        tree_wf(t),
        0 <= q < t.len(),
        forall|k: int|
            q < k < t[q].end && is_nonterminal_of(t[k], kind) ==> #[trigger] name_identifiers(t, k).len()
                <= 1,
    ensures
        params_below(t, q, kind).len() == param_nodes(t, q, kind).len(),
        forall|i: int|
            0 <= i < param_nodes(t, q, kind).len() ==> #[trigger] params_below(t, q, kind)[i]
                == param_of(t, param_nodes(t, q, kind)[i]),
{
    lemma_params_map(t, kind, q + 1, t[q].end);
}

/// The visibility that a keyword of the given kind sets, if any.
pub open spec fn visibility_keyword(kind: Seq<char>) -> Option<Visibility> {
    if kind == "ExternalKeyword"@ {
        Some(Visibility::External)
    } else if kind == "InternalKeyword"@ {
        Some(Visibility::Internal)
    } else if kind == "PrivateKeyword"@ {
        Some(Visibility::Private)
    } else if kind == "PublicKeyword"@ {
        Some(Visibility::Public)
    } else {
        None
    }
}

/// The attributes set by the keywords among the nodes from `lo` up to `hi`:
/// the last visibility keyword wins, and `override` anywhere sets the flag.
pub open spec fn attributes_in(t: Seq<NodeView>, lo: int, hi: int) -> Attributes
    decreases hi - lo,
{
    if hi <= lo {
        Attributes { visibility: Visibility::Internal, override_: false }
    } else {
        let a = attributes_in(t, lo, hi - 1);
        let n = t[hi - 1];
        if n.terminal && visibility_keyword(n.kind) is Some {
            Attributes { visibility: visibility_keyword(n.kind)->0, ..a }
        } else if is_terminal_of(n, "OverrideKeyword"@) {
            Attributes { override_: true, ..a }
        } else {
            a
        }
    }
}

/// A visibility keyword: `external`, `internal`, `private` or `public`.
pub open spec fn is_visibility_token(n: NodeView) -> bool {
    ||| is_terminal_of(n, "ExternalKeyword"@)
    ||| is_terminal_of(n, "InternalKeyword"@)
    ||| is_terminal_of(n, "PrivateKeyword"@)
    ||| is_terminal_of(n, "PublicKeyword"@)
}

/// The names of the visibility keywords and of `override` differ.
proof fn lemma_keyword_names_differ()
    ensures
        "ExternalKeyword"@ != "InternalKeyword"@,
        "ExternalKeyword"@ != "PrivateKeyword"@,
        "ExternalKeyword"@ != "PublicKeyword"@,
        "ExternalKeyword"@ != "OverrideKeyword"@,
        "InternalKeyword"@ != "PrivateKeyword"@,
        "InternalKeyword"@ != "PublicKeyword"@,
        "InternalKeyword"@ != "OverrideKeyword"@,
        "PrivateKeyword"@ != "PublicKeyword"@,
        "PrivateKeyword"@ != "OverrideKeyword"@,
        "PublicKeyword"@ != "OverrideKeyword"@,
{
    reveal_strlit("ExternalKeyword");
    reveal_strlit("InternalKeyword");
    reveal_strlit("PrivateKeyword");
    reveal_strlit("PublicKeyword");
    reveal_strlit("OverrideKeyword");
    assert("ExternalKeyword"@[0] != "InternalKeyword"@[0]);
    assert("ExternalKeyword"@[0] != "PrivateKeyword"@[0]);
    assert("ExternalKeyword"@[0] != "PublicKeyword"@[0]);
    assert("ExternalKeyword"@[0] != "OverrideKeyword"@[0]);
    assert("InternalKeyword"@[0] != "PrivateKeyword"@[0]);
    assert("InternalKeyword"@[0] != "PublicKeyword"@[0]);
    assert("InternalKeyword"@[0] != "OverrideKeyword"@[0]);
    assert("PrivateKeyword"@.len() != "PublicKeyword"@.len());
    assert("PrivateKeyword"@[0] != "OverrideKeyword"@[0]);
    assert("PublicKeyword"@[0] != "OverrideKeyword"@[0]);
}

/// Law: without a visibility keyword among the nodes, an item is internal;
/// otherwise its visibility is that of the last visibility keyword; it
/// overrides exactly when an `override` keyword is among the nodes.
pub proof fn lemma_attributes_meaning(t: Seq<NodeView>, lo: int, hi: int)
    requires
        lo <= hi,
    ensures
        (forall|k: int| lo <= k < hi ==> !is_visibility_token(#[trigger] t[k])) ==> attributes_in(
            t,
            lo,
            hi,
        ).visibility == Visibility::Internal,
        forall|m: int|
            lo <= m < hi && is_visibility_token(#[trigger] t[m]) && (forall|k: int|
                m < k < hi ==> !is_visibility_token(#[trigger] t[k])) ==> {
                let v = attributes_in(t, lo, hi).visibility;
                &&& t[m].kind == "ExternalKeyword"@ ==> v == Visibility::External
                &&& t[m].kind == "InternalKeyword"@ ==> v == Visibility::Internal
                &&& t[m].kind == "PrivateKeyword"@ ==> v == Visibility::Private
                &&& t[m].kind == "PublicKeyword"@ ==> v == Visibility::Public
            },
        attributes_in(t, lo, hi).override_ == exists|k: int|
            lo <= k < hi && is_terminal_of(#[trigger] t[k], "OverrideKeyword"@),
    decreases hi - lo,
{
    lemma_keyword_names_differ();
    if hi > lo {
        lemma_attributes_meaning(t, lo, hi - 1);
        let n = t[hi - 1];
        assert(n.terminal && visibility_keyword(n.kind) is Some <==> is_visibility_token(n));
        assert(is_visibility_token(n) ==> !is_terminal_of(n, "OverrideKeyword"@));
        if exists|k: int| lo <= k < hi - 1 && is_terminal_of(#[trigger] t[k], "OverrideKeyword"@) {
            let k = choose|k: int| lo <= k < hi - 1 && is_terminal_of(#[trigger] t[k], "OverrideKeyword"@);
            assert(lo <= k < hi && is_terminal_of(t[k], "OverrideKeyword"@));
        }
        if exists|k: int| lo <= k < hi && is_terminal_of(#[trigger] t[k], "OverrideKeyword"@) {
            let k = choose|k: int| lo <= k < hi && is_terminal_of(#[trigger] t[k], "OverrideKeyword"@);
            if k < hi - 1 {
                assert(lo <= k < hi - 1 && is_terminal_of(t[k], "OverrideKeyword"@));
            }
        }
        assert forall|m: int|
            lo <= m < hi && is_visibility_token(#[trigger] t[m]) && (forall|k: int|
                m < k < hi ==> !is_visibility_token(#[trigger] t[k])) implies {
            let v = attributes_in(t, lo, hi).visibility;
            &&& t[m].kind == "ExternalKeyword"@ ==> v == Visibility::External
            &&& t[m].kind == "InternalKeyword"@ ==> v == Visibility::Internal
            &&& t[m].kind == "PrivateKeyword"@ ==> v == Visibility::Private
            &&& t[m].kind == "PublicKeyword"@ ==> v == Visibility::Public
        } by {
            if m < hi - 1 {
                assert(!is_visibility_token(t[hi - 1]));
            }
        }
    }
}

/// Extracts the attributes (visibility and override) from a function-like
/// item or state variable.
pub fn extract_attributes(cursor: &TreeCursor) -> (r: Attributes)
    requires
        cursor_wf(*cursor),
    ensures
        r == attributes_in(
            cursor_tree(*cursor),
            cursor_place(*cursor).pos + 1,
            cursor_tree(*cursor)[cursor_place(*cursor).pos].end,
        ),
{
    let ghost t = cursor_tree(*cursor);
    let ghost q = cursor_place(*cursor).pos;
    let mut cur = spawn(cursor);
    let mut out = Attributes::default();
    loop
        invariant_except_break
            !cursor_place(cur).done,
            q <= cursor_place(cur).pos < t[q].end,
            out == attributes_in(t, q + 1, cursor_place(cur).pos + 1),
        invariant
            cursor_tree(cur) == t,
            tree_wf(t),
            0 <= q < t.len(),
            cursor_place(cur).root == q,
        ensures
            out == attributes_in(t, q + 1, t[q].end),
        decreases t[q].end - cursor_place(cur).pos,
    {
        if !go_to_next(&mut cur) {
            break;
        }
        if current_is(&cur, true, "ExternalKeyword") {
            out.visibility = Visibility::External;
        } else if current_is(&cur, true, "InternalKeyword") {
            out.visibility = Visibility::Internal;
        } else if current_is(&cur, true, "PrivateKeyword") {
            out.visibility = Visibility::Private;
        } else if current_is(&cur, true, "PublicKeyword") {
            out.visibility = Visibility::Public;
        } else if current_is(&cur, true, "OverrideKeyword") {
            out.override_ = true;
        }
    }
    out
}

/// Nodes that do not start a definition: nonterminals (the start lies in a
/// terminal inside them, such as the doc-comment that sits inside the type of
/// a state variable), whitespace and line ends.
pub open spec fn is_definition_prefix(n: NodeView) -> bool {
    ||| !n.terminal
    ||| is_terminal_of(n, "Whitespace"@)
    ||| is_terminal_of(n, "EndOfLine"@)
}

pub open spec fn starts_definition() -> spec_fn(NodeView) -> bool {
    |n: NodeView| !is_definition_prefix(n)
}

/// The span of the first terminal below `q`, in source order, that is not
/// whitespace or a line end: the first token of the definition, or the
/// comment that precedes it.
pub open spec fn definition_start(t: Seq<NodeView>, q: int) -> Option<TextRange> {
    let j = first_from(t, q + 1, t[q].end, starts_definition());
    if j < t[q].end {
        Some(t[j].range)
    } else {
        None
    }
}

/// Finds the start of a definition node, ignoring any leading whitespace
/// trivia: the span of its first terminal that is not whitespace or a line
/// end.
pub fn find_definition_start(cursor: &TreeCursor) -> (r: Option<TextRange>)
    requires
        cursor_wf(*cursor),
    ensures
        r == definition_start(cursor_tree(*cursor), cursor_place(*cursor).pos),
{
    let ghost t = cursor_tree(*cursor);
    let ghost q = cursor_place(*cursor).pos;
    let mut cur = spawn(cursor);
    proof {
        lemma_first_from(t, q + 1, t[q].end, starts_definition());
    }
    loop
        invariant_except_break
            !cursor_place(cur).done,
            q <= cursor_place(cur).pos < t[q].end,
            forall|k: int| q < k <= cursor_place(cur).pos ==> is_definition_prefix(#[trigger] t[k]),
        invariant
            cursor_tree(cur) == t,
            tree_wf(t),
            0 <= q < t.len(),
            cursor_place(cur).root == q,
            t == cursor_tree(*cursor),
            q == cursor_place(*cursor).pos,
            q + 1 <= first_from(t, q + 1, t[q].end, starts_definition()) <= t[q].end,
            first_from(t, q + 1, t[q].end, starts_definition()) < t[q].end ==> !is_definition_prefix(
                t[first_from(t, q + 1, t[q].end, starts_definition())],
            ),
            forall|k: int|
                q + 1 <= k < first_from(t, q + 1, t[q].end, starts_definition()) ==> is_definition_prefix(
                    #[trigger] t[k],
                ),
        ensures
            first_from(t, q + 1, t[q].end, starts_definition()) == t[q].end,
        decreases t[q].end - cursor_place(cur).pos,
    {
        if !go_to_next(&mut cur) {
            break;
        }
        let ghost k = cursor_place(cur).pos;
        if current_is(&cur, true, "Whitespace") || current_is(&cur, true, "EndOfLine") {
            continue;
        }
        if !node_is_terminal(&cur) {
            continue;
        }
        assert(first_from(t, q + 1, t[q].end, starts_definition()) == k);
        return Some(node_range(&cur));
    }
    None
}

/// Nodes that define a contract, an interface or a library.
pub open spec fn is_parent_definition(n: NodeView) -> bool {
    ||| is_nonterminal_of(n, "ContractDefinition"@)
    ||| is_nonterminal_of(n, "InterfaceDefinition"@)
    ||| is_nonterminal_of(n, "LibraryDefinition"@)
}

/// The parent that a definition node of the given kind and name stands for.
pub open spec fn parent_view(kind: Seq<char>, name: Seq<char>) -> ParentView {
    if kind == "ContractDefinition"@ {
        ParentView::Contract(name)
    } else if kind == "InterfaceDefinition"@ {
        ParentView::Interface(name)
    } else {
        ParentView::Library(name)
    }
}

/// The first child, among the children from `k` up to `e`, that is an
/// `Identifier` terminal (`e` if there is none).
pub open spec fn identifier_child(t: Seq<NodeView>, k: int, e: int) -> int
    decreases e - k,
{
    if k >= e || t[k].end <= k || t[k].end > e {
        e
    } else if is_terminal_of(t[k], "Identifier"@) {
        k
    } else {
        identifier_child(t, t[k].end, e)
    }
}

/// The name of the nearest contract, interface or library above node `j`
/// (and below the cursor's root) that has an identifier among its children.
pub open spec fn parent_name_from(t: Seq<NodeView>, root: int, j: int) -> Option<ParentView>
    decreases j,
{
    if j <= root || j >= t.len() || t[j].parent >= j || t[j].parent < 0 {
        None
    } else {
        let a = t[j].parent;
        let c = identifier_child(t, a + 1, t[a].end);
        if is_parent_definition(t[a]) && c < t[a].end {
            Some(parent_view(t[a].kind, trimmed(t[c].text)))
        } else {
            parent_name_from(t, root, a)
        }
    }
}

/// The trimmed text of the first `Identifier` child of the cursor's node.
fn first_identifier_child(c: &TreeCursor) -> (r: Option<String>)
    requires
        cursor_wf(*c),
    ensures
        ({
            let t = cursor_tree(*c);
            let a = cursor_place(*c).pos;
            let k = identifier_child(t, a + 1, t[a].end);
            match r {
                Some(s) => k < t[a].end && s@ == trimmed(t[k].text),
                None => k >= t[a].end,
            }
        }),
{
    let ghost t = cursor_tree(*c);
    let ghost a = cursor_place(*c).pos;
    let ghost e = t[a].end;
    let mut ch = spawn(c);
    if !go_to_first_child(&mut ch) {
        return None;
    }
    proof {
        lemma_first_child(t, a);
    }
    loop
        invariant
            cursor_tree(ch) == t,
            tree_wf(t),
            0 <= a < t.len(),
            e == t[a].end,
            cursor_place(ch).root == a,
            !cursor_place(ch).done,
            a < cursor_place(ch).pos < e,
            t[cursor_place(ch).pos].parent == a,
            forall|i: int| a < i < cursor_place(ch).pos ==> #[trigger] t[i].end <= cursor_place(ch).pos,
            identifier_child(t, cursor_place(ch).pos, e) == identifier_child(t, a + 1, e),
            t == cursor_tree(*c),
            a == cursor_place(*c).pos,
        decreases e - cursor_place(ch).pos,
    {
        let ghost k = cursor_place(ch).pos;
        assert(k < t[k].end <= e);
        if current_is(&ch, true, "Identifier") {
            let text = node_text(&ch);
            return Some(trim(text.as_str()));
        }
        if !go_to_next_sibling(&mut ch) {
            assert(identifier_child(t, t[k].end, e) == e);
            return None;
        }
        proof {
            lemma_next_sibling(t, a, k);
        }
    }
}

/// Finds the name of the contract, interface or library that holds the
/// cursor's node, if any.
pub fn extract_parent_name(cursor: TreeCursor) -> (r: Option<Parent>)
    requires
        cursor_wf(cursor),
    ensures
        r.deep_view() == parent_name_from(
            cursor_tree(cursor),
            cursor_place(cursor).root,
            cursor_place(cursor).pos,
        ),
{
    let ghost t = cursor_tree(cursor);
    let ghost root = cursor_place(cursor).root;
    let ghost target = parent_name_from(t, root, cursor_place(cursor).pos);
    let mut cur = cursor;
    loop
        invariant
            cursor_wf(cur),
            cursor_tree(cur) == t,
            cursor_place(cur).root == root,
            parent_name_from(t, root, cursor_place(cur).pos) == target,
            t == cursor_tree(cursor),
            root == cursor_place(cursor).root,
            target == parent_name_from(t, root, cursor_place(cursor).pos),
        decreases cursor_place(cur).pos,
    {
        let ghost j = cursor_place(cur).pos;
        if !go_to_parent(&mut cur) {
            return None;
        }
        proof {
            lemma_parent_in_subtree(t, root, j);
        }
        let is_def = current_is(&cur, false, "ContractDefinition") || current_is(
            &cur,
            false,
            "InterfaceDefinition",
        ) || current_is(&cur, false, "LibraryDefinition");
        if is_def {
            if let Some(name) = first_identifier_child(&cur) {
                if current_is(&cur, false, "ContractDefinition") {
                    return Some(Parent::Contract(name));
                } else if current_is(&cur, false, "InterfaceDefinition") {
                    return Some(Parent::Interface(name));
                } else {
                    return Some(Parent::Library(name));
                }
            }
        }
    }
}

/// A contract, interface or library definition with an `Identifier` child:
/// the nodes that name a parent.
pub open spec fn names_parent(t: Seq<NodeView>, a: int) -> bool {
    is_parent_definition(t[a]) && identifier_child(t, a + 1, t[a].end) < t[a].end
}

/// The parent that such a node names.
pub open spec fn named_parent(t: Seq<NodeView>, a: int) -> ParentView {
    parent_view(t[a].kind, trimmed(t[identifier_child(t, a + 1, t[a].end)].text))
}

/// The proper ancestors of node `j` are its parent and the proper ancestors
/// of its parent.
pub proof fn lemma_ancestor_of(t: Seq<NodeView>, j: int, a: int)
    requires
        tree_wf(t),
        0 < j < t.len(),
        0 <= a < j,
    ensures
        (j < t[a].end) <==> (a == t[j].parent || a < t[j].parent < t[a].end),
{
    let p = t[j].parent;
    assert(0 <= p < j && j < t[p].end);
    if j < t[a].end && a > p {
        assert(t[a].end <= j);
    }
    if a < p && p < t[a].end {
        assert(t[p].end <= t[a].end);
    }
}

/// Law: walking up from node `j` of a whole tree (a cursor that was not
/// re-rooted), [`extract_parent_name`] names the nearest proper ancestor
/// of `j` that is a contract, interface or library with an `Identifier`
/// child, and gives `None` exactly when no ancestor is one.
pub proof fn lemma_parent_is_nearest(t: Seq<NodeView>, j: int)
    requires
        tree_wf(t),
        0 <= j < t.len(),
    ensures
        match parent_name_from(t, 0, j) {
            Some(p) => exists|a: int|
                {
                    &&& 0 <= a < j < t[a].end
                    &&& names_parent(t, a)
                    &&& p == named_parent(t, a)
                    &&& forall|b: int| a < b < j && j < t[b].end ==> !names_parent(t, b)
                },
            None => forall|a: int| 0 <= a < j && j < t[a].end ==> !names_parent(t, a),
        },
    decreases j,
{
    if j > 0 {
        let p = t[j].parent;
        assert(0 <= p < j);
        assert forall|a: int| 0 <= a < j implies ((j < t[a].end) <==> (a == p || a < p < t[a].end)) by {
            lemma_ancestor_of(t, j, a);
        }
        if names_parent(t, p) {
            assert(j < t[p].end);
        } else {
            lemma_parent_is_nearest(t, p);
        }
    }
}

/// A NatSpec comment terminal.
pub open spec fn is_natspec_comment(n: NodeView) -> bool {
    is_terminal_of(n, "MultiLineNatSpecComment"@) || is_terminal_of(n, "SingleLineNatSpecComment"@)
}

/// A node that starts the body of an item: past it, comments no longer
/// document the item.
pub open spec fn ends_documentation(n: NodeView) -> bool {
    &&& !is_natspec_comment(n)
    &&& {
        ||| is_terminal_of(n, "ConstructorKeyword"@)
        ||| is_terminal_of(n, "EnumKeyword"@)
        ||| is_terminal_of(n, "ErrorKeyword"@)
        ||| is_terminal_of(n, "EventKeyword"@)
        ||| is_terminal_of(n, "FunctionKeyword"@)
        ||| is_terminal_of(n, "ModifierKeyword"@)
        ||| is_terminal_of(n, "StructKeyword"@)
        ||| is_nonterminal_of(n, "StateVariableAttributes"@)
    }
}

pub open spec fn ends_documentation_fn() -> spec_fn(NodeView) -> bool {
    |n: NodeView| ends_documentation(n)
}

/// A NatSpec comment found before an item: its form, the line it starts on,
/// and its items.
pub struct CommentView {
    pub multiline: bool,
    pub line: int,
    pub items: Seq<NatSpecItemView>,
}

/// A NatSpec comment found before an item.
pub struct CommentEntry {
    pub multiline: bool,
    pub line: usize,
    pub natspec: NatSpec,
}

impl DeepView for CommentEntry {
    type V = CommentView;

    open spec fn deep_view(&self) -> CommentView {
        CommentView { multiline: self.multiline, line: self.line as int, items: self.natspec.items.deep_view() }
    }
}

/// The NatSpec comments among the nodes from `lo` up to `hi`, in source
/// order, each with its `@return` items named after `return_values`; or the
/// error of the first comment that does not parse.
pub open spec fn comments_in(
    t: Seq<NodeView>,
    q: int,
    return_values: Seq<IdentifierView>,
    lo: int,
    hi: int,
) -> Result<Seq<CommentView>, ErrorView>
    decreases hi - lo,
{
    if hi <= lo {
        Ok(Seq::empty())
    } else {
        match comments_in(t, q, return_values, lo, hi - 1) {
            Err(e) => Err(e),
            Ok(cs) => {
                let n = t[hi - 1];
                if is_natspec_comment(n) {
                    match comment_items(n.text) {
                        Err(m) => Err(
                            ErrorView::NatspecParsingError {
                                parent: parent_name_from(t, q, hi - 1),
                                span: n.range,
                                message: m,
                            },
                        ),
                        Ok(items) => Ok(
                            cs.push(
                                CommentView {
                                    multiline: n.kind == "MultiLineNatSpecComment"@,
                                    line: n.range.start.line as int,
                                    items: with_return_names(items, return_values),
                                },
                            ),
                        ),
                    }
                } else {
                    Ok(cs)
                }
            },
        }
    }
}

/// Once a comment fails to parse, the failure is the outcome however many
/// more nodes follow.
pub proof fn lemma_comments_error_stays(
    t: Seq<NodeView>,
    q: int,
    return_values: Seq<IdentifierView>,
    lo: int,
    hi: int,
    hi2: int,
)
    requires
        lo <= hi <= hi2,
        comments_in(t, q, return_values, lo, hi) is Err,
    ensures
        comments_in(t, q, return_values, lo, hi2) == comments_in(t, q, return_values, lo, hi),
    decreases hi2 - hi,
{
    if hi2 > hi {
        lemma_comments_error_stays(t, q, return_values, lo, hi, hi2 - 1);
    }
}

/// The first comment of the block of single-line comments that ends with
/// comment `k`: the block stops at a multi-line comment or at a gap of at
/// least one line.
pub open spec fn block_start(cs: Seq<CommentView>, k: int) -> int
    decreases k,
{
    if k <= 0 {
        0
    } else if cs[k - 1].multiline || cs[k - 1].line + 1 < cs[k].line {
        k
    } else {
        block_start(cs, k - 1)
    }
}

/// The items of the comments from `lo` up to `hi`, in order.
pub open spec fn items_of(cs: Seq<CommentView>, lo: int, hi: int) -> Seq<NatSpecItemView>
    decreases hi - lo,
{
    if hi <= lo {
        Seq::empty()
    } else {
        items_of(cs, lo, hi - 1) + cs[hi - 1].items
    }
}

/// The documentation that a list of comments gives an item: the last comment
/// if it is a multi-line one; otherwise the last block of adjacent
/// single-line comments; nothing if there is no comment.
pub open spec fn comment_block(cs: Seq<CommentView>) -> Option<Seq<NatSpecItemView>> {
    if cs.len() == 0 {
        None
    } else if cs.last().multiline {
        Some(cs.last().items)
    } else {
        Some(items_of(cs, block_start(cs, cs.len() - 1), cs.len() as int))
    }
}

/// Law: a multi-line comment right before an item is its whole
/// documentation; the comments above it are ignored.
pub proof fn lemma_multiline_comment_wins(cs: Seq<CommentView>)
    requires
        cs.len() > 0,
        cs.last().multiline,
    ensures
        comment_block(cs) == Some(cs.last().items),
{
}

/// Law: when the last comment before an item is a single-line one, the
/// documentation joins, in order, the maximal run of single-line comments
/// that ends with it, each on the line right after the previous one (or on
/// the same line); the comment before the run, if any, is multi-line or more
/// than one line above.
pub proof fn lemma_single_line_block(cs: Seq<CommentView>)
    requires
        cs.len() > 0,
        !cs.last().multiline,
    ensures
        ({
            let s = block_start(cs, cs.len() - 1);
            &&& 0 <= s < cs.len()
            &&& comment_block(cs) == Some(items_of(cs, s, cs.len() as int))
            &&& forall|k: int| s <= k < cs.len() ==> !(#[trigger] cs[k]).multiline
            &&& forall|k: int| s < k < cs.len() ==> cs[k - 1].line + 1 >= #[trigger] cs[k].line
            &&& s == 0 || cs[s - 1].multiline || cs[s - 1].line + 1 < cs[s].line
        }),
{
    lemma_block_run(cs, cs.len() - 1);
}

/// Law: when the comments start on increasing lines, as they do in a source
/// file, the documentation of an item whose last comment is a single-line
/// one joins, in order, the longest run of single-line comments that ends
/// with it and in which each comment starts on the line after the previous
/// one.
pub proof fn lemma_single_line_block_consecutive(cs: Seq<CommentView>)
    requires
        cs.len() > 0,
        !cs.last().multiline,
        forall|k: int| 0 < k < cs.len() ==> cs[k - 1].line < #[trigger] cs[k].line,
    ensures
        ({
            let s = block_start(cs, cs.len() - 1);
            &&& 0 <= s < cs.len()
            &&& comment_block(cs) == Some(items_of(cs, s, cs.len() as int))
            &&& forall|k: int| s <= k < cs.len() ==> !(#[trigger] cs[k]).multiline
            &&& forall|k: int| s < k < cs.len() ==> #[trigger] cs[k].line == cs[k - 1].line + 1
            &&& s == 0 || cs[s - 1].multiline || cs[s].line != cs[s - 1].line + 1
        }),
{
    lemma_single_line_block(cs);
}

proof fn lemma_block_run(cs: Seq<CommentView>, j: int)
    requires
        0 <= j < cs.len(),
        !cs[j].multiline,
    ensures
        ({
            let s = block_start(cs, j);
            &&& 0 <= s <= j
            &&& forall|k: int| s <= k <= j ==> !(#[trigger] cs[k]).multiline
            &&& forall|k: int| s < k <= j ==> cs[k - 1].line + 1 >= #[trigger] cs[k].line
            &&& s == 0 || cs[s - 1].multiline || cs[s - 1].line + 1 < cs[s].line
        }),
    decreases j,
{
    if j > 0 && !(cs[j - 1].multiline || cs[j - 1].line + 1 < cs[j].line) {
        lemma_block_run(cs, j - 1);
    }
}

/// Picks the documentation of an item among the comments found before it.
pub fn select_comment_block(comments: Vec<CommentEntry>) -> (r: Option<NatSpec>)
    ensures
        natspec_view(r) == comment_block(comments.deep_view()),
{
    let ghost cs = comments.deep_view();
    let mut comments = comments;
    let len = comments.len();
    if len == 0 {
        return None;
    }
    if comments[len - 1].multiline {
        let last = comments.pop().unwrap();
        assert(last.deep_view() == cs.last());
        return Some(last.natspec);
    }
    let mut start = len - 1;
    while start > 0 && !comments[start - 1].multiline && comments[start - 1].line as u128 + 1
        >= comments[start].line as u128
        invariant
            0 <= start < len,
            len == comments@.len(),
            cs == comments.deep_view(),
            block_start(cs, start as int) == block_start(cs, len - 1),
        decreases start,
    {
        start = start - 1;
    }
    let mut block = comments.split_off(start);
    let ghost bs = block.deep_view();
    assert(bs =~= cs.subrange(start as int, len as int));
    let mut acc = NatSpec::default();
    while block.len() > 0
        invariant
            start <= len,
            bs == cs.subrange(start as int, len as int),
            bs.len() == len - start,
            block@.len() <= bs.len(),
            len == cs.len(),
            block.deep_view() == bs.subrange(bs.len() - block@.len(), bs.len() as int),
            acc.items.deep_view() == items_of(cs, start as int, len - block@.len()),
        decreases block.len(),
    {
        let ghost k = len - block@.len();
        let ghost old_block = block.deep_view();
        let mut entry = block.remove(0);
        assert(old_block[0] == bs[bs.len() - (block@.len() + 1)]);
        assert(bs[bs.len() - (block@.len() + 1)] == cs[k]);
        assert(entry.deep_view() == old_block[0]);
        assert(entry.deep_view() == cs[k]);
        acc.append(&mut entry.natspec);
        assert(block.deep_view() =~= old_block.subrange(1, old_block.len() as int));
        assert(block.deep_view() =~= bs.subrange(bs.len() - block@.len(), bs.len() as int));
    }
    Some(acc)
}

/// Finds the NatSpec comment that documents the item at the cursor, parses
/// it, and names its `@return` items after `return_values`.
///
/// Comments are collected up to the keyword that starts the item (or the
/// attributes of a state variable). A multi-line comment right before the
/// item wins; otherwise the single-line comments just above the item, up to
/// a blank line or a multi-line comment, are joined.
pub fn extract_comment(cursor: &TreeCursor, return_values: &[Identifier]) -> (r: Result<
    Option<NatSpec>,
    Error,
>)
    requires
        cursor_wf(*cursor),
    ensures
        match r {
            Ok(o) => documentation(*cursor, ids_view(return_values@)) == Ok::<_, ErrorView>(
                natspec_view(o),
            ),
            Err(e) => documentation(*cursor, ids_view(return_values@)) == Err::<
                Option<Seq<NatSpecItemView>>,
                _,
            >(e.deep_view()),
        },
{
    let ghost t = cursor_tree(*cursor);
    let ghost q = cursor_place(*cursor).pos;
    let ghost rv = ids_view(return_values@);
    let ghost stop = first_from(t, q + 1, t[q].end, ends_documentation_fn());
    let mut cur = spawn(cursor);
    let mut entries: Vec<CommentEntry> = Vec::new();
    proof {
        lemma_first_from(t, q + 1, t[q].end, ends_documentation_fn());
        assert(entries.deep_view() =~= Seq::<CommentView>::empty());
    }
    loop
        invariant_except_break
            !cursor_place(cur).done,
            q <= cursor_place(cur).pos < t[q].end,
            cursor_place(cur).pos < stop,
            comments_in(t, q, rv, q + 1, cursor_place(cur).pos + 1) == Ok::<_, ErrorView>(
                entries.deep_view(),
            ),
        invariant
            cursor_tree(cur) == t,
            tree_wf(t),
            0 <= q < t.len(),
            cursor_place(cur).root == q,
            t == cursor_tree(*cursor),
            q == cursor_place(*cursor).pos,
            rv == ids_view(return_values@),
            stop == first_from(t, q + 1, t[q].end, ends_documentation_fn()),
            q + 1 <= stop <= t[q].end,
            stop < t[q].end ==> ends_documentation(t[stop]),
            forall|k: int| q + 1 <= k < stop ==> !ends_documentation(#[trigger] t[k]),
        ensures
            comments_in(t, q, rv, q + 1, stop) == Ok::<_, ErrorView>(entries.deep_view()),
        decreases t[q].end - cursor_place(cur).pos,
    {
        if !go_to_next(&mut cur) {
            break;
        }
        let ghost k = cursor_place(cur).pos;
        let ghost before = entries.deep_view();
        let is_multi = current_is(&cur, true, "MultiLineNatSpecComment");
        if is_multi || current_is(&cur, true, "SingleLineNatSpecComment") {
            let text = node_text(&cur);
            let range = node_range(&cur);
            match parse_comment(text.as_str()) {
                Err(message) => {
                    let parent = extract_parent_name(clone_cursor(&cur));
                    let err = Error::NatspecParsingError { parent, span: range, message };
                    proof {
                        lemma_comments_error_stays(t, q, rv, q + 1, k + 1, stop);
                    }
                    return Err(err);
                },
                Ok(natspec) => {
                    let natspec = natspec.populate_returns(return_values);
                    entries.push(CommentEntry { multiline: is_multi, line: range.start.line, natspec });
                    assert(entries.deep_view() =~= before.push(entries.deep_view().last()));
                },
            }
        } else if current_is(&cur, true, "ConstructorKeyword") || current_is(&cur, true, "EnumKeyword")
            || current_is(&cur, true, "ErrorKeyword") || current_is(&cur, true, "EventKeyword")
            || current_is(&cur, true, "FunctionKeyword") || current_is(&cur, true, "ModifierKeyword")
            || current_is(&cur, true, "StructKeyword") || current_is(
            &cur,
            false,
            "StateVariableAttributes",
        ) {
            assert(stop == k);
            break;
        }
    }
    Ok(select_comment_block(entries))
}

/// Two cursors over the same tree at the same place.
pub open spec fn same_cursor(a: TreeCursor, b: TreeCursor) -> bool {
    cursor_tree(a) == cursor_tree(b) && cursor_place(a) == cursor_place(b)
}

/// Retrieves the first cursor captured under `name`, or fails with
/// [`Error::UnknownError`].
pub fn capture(m: &QueryHit, name: &str) -> (r: Result<TreeCursor, Error>)
    ensures
        match first_captured(*m, name@) {
            Some(Some(c)) => r matches Ok(d) && same_cursor(d, c) && cursor_wf(d),
            _ => r == Err::<TreeCursor, _>(Error::UnknownError),
        },
{
    match first_capture(m, name) {
        Some(Some(c)) => Ok(c),
        _ => Err(Error::UnknownError),
    }
}

/// Retrieves the first cursor captured under `name` if there is one; fails
/// with [`Error::UnknownError`] if the query has no such capture name.
pub fn capture_opt(m: &QueryHit, name: &str) -> (r: Result<Option<TreeCursor>, Error>)
    ensures
        match first_captured(*m, name@) {
            Some(Some(c)) => r matches Ok(Some(d)) && same_cursor(d, c) && cursor_wf(d),
            Some(None) => r matches Ok(None),
            None => r == Err::<Option<TreeCursor>, _>(Error::UnknownError),
        },
{
    match first_capture(m, name) {
        Some(Some(c)) => Ok(Some(c)),
        Some(None) => Ok(None),
        None => Err(Error::UnknownError),
    }
}

/// The span of the node at the cursor.
pub open spec fn range_of(c: TreeCursor) -> TextRange {
    current(c).range
}

/// The trimmed text of the node at the cursor.
pub open spec fn name_of(c: TreeCursor) -> Seq<char> {
    trimmed(current(c).text)
}

/// Where the definition at the cursor starts.
pub open spec fn start_of(c: TreeCursor) -> Option<TextRange> {
    definition_start(cursor_tree(c), cursor_place(c).pos)
}

pub open spec fn parent_of(c: TreeCursor) -> Option<ParentView> {
    parent_name_from(cursor_tree(c), cursor_place(c).root, cursor_place(c).pos)
}

pub open spec fn params_of(c: TreeCursor, kind: Seq<char>) -> Seq<IdentifierView> {
    params_below(cursor_tree(c), cursor_place(c).pos, kind)
}

pub open spec fn attributes_of(c: TreeCursor) -> Attributes {
    attributes_in(
        cursor_tree(c),
        cursor_place(c).pos + 1,
        cursor_tree(c)[cursor_place(c).pos].end,
    )
}

/// The documentation of the item at the cursor (see [`extract_comment`]).
pub open spec fn documentation(c: TreeCursor, return_values: Seq<IdentifierView>) -> Result<
    Option<Seq<NatSpecItemView>>,
    ErrorView,
> {
    let t = cursor_tree(c);
    let q = cursor_place(c).pos;
    match comments_in(
        t,
        q,
        return_values,
        q + 1,
        first_from(t, q + 1, t[q].end, ends_documentation_fn()),
    ) {
        Ok(cs) => Ok(comment_block(cs)),
        Err(e) => Err(e),
    }
}

/// From the start of the definition (or of the whole node, if there is no
/// such start) to the end of `end`.
pub open spec fn span_from(start: Option<TextRange>, whole: TextRange, end: TextRange) -> TextRange {
    match start {
        Some(s) => TextRange { start: s.start, end: end.end },
        None => whole,
    }
}

pub open spec fn outcome(r: Result<Definition, Error>) -> Result<DefinitionView, ErrorView> {
    match r {
        Ok(d) => Ok(d.deep_view()),
        Err(e) => Err(e.deep_view()),
    }
}

pub open spec fn constructor_view(node: TreeCursor, params: TreeCursor, attr: TreeCursor) -> Result<
    DefinitionView,
    ErrorView,
> {
    match documentation(node, Seq::empty()) {
        Err(e) => Err(e),
        Ok(doc) => Ok(
            DefinitionView {
                parent: parent_of(node),
                span: span_from(start_of(node), range_of(node), range_of(attr)),
                params: params_of(params, "Parameter"@),
                natspec: doc,
                ..empty_view(DefinitionKind::Constructor)
            },
        ),
    }
}

impl ConstructorDefinition {
    /// Builds the definition of a constructor from the nodes of its
    /// definition, its parameters and its attributes.
    pub fn from_nodes(node: &TreeCursor, params: &TreeCursor, attr: &TreeCursor) -> (r: Result<
        Definition,
        Error,
    >)
        requires
            cursor_wf(*node),
            cursor_wf(*params),
            cursor_wf(*attr),
        ensures
            outcome(r) == constructor_view(*node, *params, *attr),
    {
        let span = span_to(node, attr);
        let params = extract_params(params, "Parameter");
        let natspec = match plain_comment(node) {
            Ok(n) => n,
            Err(e) => {
                return Err(e);
            },
        };
        let parent = extract_parent_name(clone_cursor(node));
        let r = Definition::Constructor(ConstructorDefinition { parent, span, params, natspec });
        Ok(r)
    }
}

pub open spec fn members_of(c: TreeCursor) -> Seq<IdentifierView> {
    all_identifiers(cursor_tree(c), cursor_place(c).pos)
}

pub open spec fn named_ids_of(c: TreeCursor) -> Seq<IdentifierView> {
    name_identifiers(cursor_tree(c), cursor_place(c).pos)
}

pub open spec fn enum_view(node: TreeCursor, name: TreeCursor, members: TreeCursor) -> Result<
    DefinitionView,
    ErrorView,
> {
    match documentation(node, Seq::empty()) {
        Err(e) => Err(e),
        Ok(doc) => Ok(
            DefinitionView {
                parent: parent_of(node),
                name: name_of(name),
                span: span_from(start_of(node), range_of(node), range_of(node)),
                members: members_of(members),
                natspec: doc,
                ..empty_view(DefinitionKind::Enumeration)
            },
        ),
    }
}

pub open spec fn error_view(node: TreeCursor, name: TreeCursor, params: TreeCursor) -> Result<
    DefinitionView,
    ErrorView,
> {
    match documentation(node, Seq::empty()) {
        Err(e) => Err(e),
        Ok(doc) => Ok(
            DefinitionView {
                parent: parent_of(node),
                name: name_of(name),
                span: span_from(start_of(node), range_of(node), range_of(node)),
                params: named_ids_of(params),
                natspec: doc,
                ..empty_view(DefinitionKind::Error)
            },
        ),
    }
}

pub open spec fn event_view(node: TreeCursor, name: TreeCursor, params: TreeCursor) -> Result<
    DefinitionView,
    ErrorView,
> {
    match documentation(node, Seq::empty()) {
        Err(e) => Err(e),
        Ok(doc) => Ok(
            DefinitionView {
                parent: parent_of(node),
                name: name_of(name),
                span: span_from(start_of(node), range_of(node), range_of(node)),
                params: params_of(params, "EventParameter"@),
                natspec: doc,
                ..empty_view(DefinitionKind::Event)
            },
        ),
    }
}

pub open spec fn return_values_of(return_node: Option<TreeCursor>) -> Seq<IdentifierView> {
    match return_node {
        Some(r) => params_of(r, "Parameter"@),
        None => Seq::empty(),
    }
}

/// The `Identifier` terminals below node `q` whose edge is labeled `name`
/// or not labeled, in source order: in slang's tree, the names of the
/// parameters of an error.
pub open spec fn named_identifier_nodes(t: Seq<NodeView>, q: int) -> Seq<int> {
    gather(
        q + 1,
        t[q].end,
        |k: int|
            if t[k].terminal && t[k].kind == "Identifier"@ && (t[k].label is None || t[k].label
                == Some("name"@)) {
                seq![k]
            } else {
                Seq::empty()
            },
    )
}

proof fn lemma_named_identifiers_map(t: Seq<NodeView>, q: int, hi: int)
    requires
        q < hi,
    ensures
        gather(q + 1, hi, name_identifier_entry(t)) == gather(
            q + 1,
            hi,
            |k: int|
                if t[k].terminal && t[k].kind == "Identifier"@ && (t[k].label is None || t[k].label
                    == Some("name"@)) {
                    seq![k]
                } else {
                    Seq::empty()
                },
        ).map_values(|k: int| IdentifierView { name: Some(trimmed(t[k].text)), span: t[k].range }),
    decreases hi - q,
{
    let f = |k: int|
        if t[k].terminal && t[k].kind == "Identifier"@ && (t[k].label is None || t[k].label == Some(
            "name"@,
        )) {
            seq![k]
        } else {
            Seq::empty()
        };
    let g = |k: int| IdentifierView { name: Some(trimmed(t[k].text)), span: t[k].range };
    if hi > q + 1 {
        lemma_named_identifiers_map(t, q, hi - 1);
        let nodes = gather(q + 1, hi - 1, f);
        let k = hi - 1;
        if f(k).len() > 0 {
            assert((nodes + seq![k]).map_values(g) =~= nodes.map_values(g) + seq![g(k)]);
            assert(name_identifier_entry(t)(k) =~= seq![g(k)]);
        } else {
            assert(nodes + f(k) =~= nodes);
            assert(name_identifier_entry(t)(k) =~= Seq::<IdentifierView>::empty());
            assert(gather(q + 1, k, name_identifier_entry(t)) + name_identifier_entry(t)(k)
                =~= gather(q + 1, k, name_identifier_entry(t)));
        }
    } else {
        assert(gather(q + 1, hi, f).map_values(g) =~= Seq::<IdentifierView>::empty());
    }
}

/// Law: the parameters reported for a custom error are, in source order, the
/// names of its parameters: one entry per `Identifier` labeled `name` (or
/// not labeled) below the parameter list, with its trimmed text and its span.
pub proof fn lemma_error_params(node: TreeCursor, name: TreeCursor, params: TreeCursor)
    requires
        cursor_wf(params),
    ensures
        error_view(node, name, params) matches Ok(d) ==> {
            let t = cursor_tree(params);
            let ks = named_identifier_nodes(t, cursor_place(params).pos);
            &&& d.params.len() == ks.len()
            &&& forall|i: int|
                0 <= i < ks.len() ==> #[trigger] d.params[i] == (IdentifierView {
                    name: Some(trimmed(t[ks[i]].text)),
                    span: t[ks[i]].range,
                })
        },
{
    let t = cursor_tree(params);
    let q = cursor_place(params).pos;
    assert(q < t[q].end);
    lemma_named_identifiers_map(t, q, t[q].end);
}

/// Law: a modifier with a parameter list reports, in source order, one entry
/// per `Parameter` node of that list (when each names at most one
/// identifier): the parameter's name, or an unnamed entry spanning it; a
/// modifier without a parameter list reports none.
pub proof fn lemma_modifier_params(
    node: TreeCursor,
    name: TreeCursor,
    params: Option<TreeCursor>,
    attr: TreeCursor,
)
    requires
        params matches Some(p) ==> {
            &&& cursor_wf(p)
            &&& forall|k: int|
                cursor_place(p).pos < k < cursor_tree(p)[cursor_place(p).pos].end
                    && is_nonterminal_of(cursor_tree(p)[k], "Parameter"@)
                    ==> #[trigger] name_identifiers(cursor_tree(p), k).len() <= 1
        },
    ensures
        modifier_view(node, name, params, attr) matches Ok(d) ==> match params {
            Some(p) => {
                let t = cursor_tree(p);
                let ps = param_nodes(t, cursor_place(p).pos, "Parameter"@);
                &&& d.params.len() == ps.len()
                &&& forall|i: int| 0 <= i < ps.len() ==> #[trigger] d.params[i] == param_of(t, ps[i])
            },
            None => d.params.len() == 0,
        },
{
    if let Some(p) = params {
        lemma_params_one_per_node(cursor_tree(p), cursor_place(p).pos, "Parameter"@);
    }
}

/// Law: an event reports, in source order, one entry per `EventParameter`
/// node of its parameter list (when each names at most one identifier): the
/// parameter's name, or an unnamed entry spanning it.
pub proof fn lemma_event_params(node: TreeCursor, name: TreeCursor, params: TreeCursor)
    requires
        cursor_wf(params),
        forall|k: int|
            cursor_place(params).pos < k < cursor_tree(params)[cursor_place(params).pos].end
                && is_nonterminal_of(cursor_tree(params)[k], "EventParameter"@)
                ==> #[trigger] name_identifiers(cursor_tree(params), k).len() <= 1,
    ensures
        event_view(node, name, params) matches Ok(d) ==> {
            let t = cursor_tree(params);
            let ps = param_nodes(t, cursor_place(params).pos, "EventParameter"@);
            &&& d.params.len() == ps.len()
            &&& forall|i: int| 0 <= i < ps.len() ==> #[trigger] d.params[i] == param_of(t, ps[i])
        },
{
    lemma_params_one_per_node(cursor_tree(params), cursor_place(params).pos, "EventParameter"@);
}

pub open spec fn function_view(
    node: TreeCursor,
    name: TreeCursor,
    params: TreeCursor,
    attributes: TreeCursor,
    return_node: Option<TreeCursor>,
) -> Result<DefinitionView, ErrorView> {
    let rv = return_values_of(return_node);
    let start = match start_of(node) {
        Some(s) => s,
        None => range_of(node),
    };
    let end = match return_node {
        Some(r) => range_of(r),
        None => range_of(attributes),
    };
    match documentation(node, rv) {
        Err(e) => Err(e),
        Ok(doc) => Ok(
            DefinitionView {
                parent: parent_of(node),
                name: name_of(name),
                span: TextRange { start: start.start, end: end.end },
                params: params_of(params, "Parameter"@),
                returns: rv,
                natspec: doc,
                attributes: attributes_of(attributes),
                ..empty_view(DefinitionKind::Function)
            },
        ),
    }
}

/// Every `Parameter` node below the cursor's node names at most one
/// identifier.
pub open spec fn params_simple(c: TreeCursor) -> bool {
    forall|k: int|
        cursor_place(c).pos < k < cursor_tree(c)[cursor_place(c).pos].end && is_nonterminal_of(
            cursor_tree(c)[k],
            "Parameter"@,
        ) ==> #[trigger] name_identifiers(cursor_tree(c), k).len() <= 1
}

/// Law: a function reports, in source order, one parameter per `Parameter`
/// node of its parameter list and one return value per `Parameter` node of
/// its return list (none without one): each the parameter's name, or an
/// unnamed entry spanning it.
pub proof fn lemma_function_params(
    node: TreeCursor,
    name: TreeCursor,
    params: TreeCursor,
    attributes: TreeCursor,
    return_node: Option<TreeCursor>,
)
    requires
        cursor_wf(params),
        params_simple(params),
        return_node matches Some(r) ==> cursor_wf(r) && params_simple(r),
    ensures
        function_view(node, name, params, attributes, return_node) matches Ok(d) ==> {
            let t = cursor_tree(params);
            let ps = param_nodes(t, cursor_place(params).pos, "Parameter"@);
            &&& d.params.len() == ps.len()
            &&& forall|i: int| 0 <= i < ps.len() ==> #[trigger] d.params[i] == param_of(t, ps[i])
            &&& match return_node {
                Some(r) => {
                    let rt = cursor_tree(r);
                    let rs = param_nodes(rt, cursor_place(r).pos, "Parameter"@);
                    &&& d.returns.len() == rs.len()
                    &&& forall|i: int|
                        0 <= i < rs.len() ==> #[trigger] d.returns[i] == param_of(rt, rs[i])
                },
                None => d.returns.len() == 0,
            }
        },
{
    lemma_params_one_per_node(cursor_tree(params), cursor_place(params).pos, "Parameter"@);
    if let Some(r) = return_node {
        lemma_params_one_per_node(cursor_tree(r), cursor_place(r).pos, "Parameter"@);
    }
}

pub open spec fn modifier_view(
    node: TreeCursor,
    name: TreeCursor,
    params: Option<TreeCursor>,
    attr: TreeCursor,
) -> Result<DefinitionView, ErrorView> {
    let start = match start_of(node) {
        Some(s) => s,
        None => range_of(node),
    };
    let end = match params {
        Some(p) => range_of(p),
        None => range_of(attr),
    };
    match documentation(node, Seq::empty()) {
        Err(e) => Err(e),
        Ok(doc) => Ok(
            DefinitionView {
                parent: parent_of(node),
                name: name_of(name),
                span: TextRange { start: start.start, end: end.end },
                params: return_values_of(params),
                natspec: doc,
                attributes: attributes_of(attr),
                ..empty_view(DefinitionKind::Modifier)
            },
        ),
    }
}

pub open spec fn struct_view(node: TreeCursor, name: TreeCursor, members: Seq<IdentifierView>) -> Result<
    DefinitionView,
    ErrorView,
> {
    match documentation(node, Seq::empty()) {
        Err(e) => Err(e),
        Ok(doc) => Ok(
            DefinitionView {
                parent: parent_of(node),
                name: name_of(name),
                span: span_from(start_of(node), range_of(node), range_of(node)),
                members,
                natspec: doc,
                ..empty_view(DefinitionKind::Struct)
            },
        ),
    }
}

pub open spec fn variable_view(node: TreeCursor, attributes: TreeCursor, name: TreeCursor) -> Result<
    DefinitionView,
    ErrorView,
> {
    match documentation(node, Seq::empty()) {
        Err(e) => Err(e),
        Ok(doc) => Ok(
            DefinitionView {
                parent: parent_of(node),
                name: name_of(name),
                span: span_from(start_of(node), range_of(node), range_of(node)),
                natspec: doc,
                attributes: attributes_of(attributes),
                ..empty_view(DefinitionKind::Variable)
            },
        ),
    }
}

/// The span from the start of the definition at `node` (or of the whole
/// node) to the end of `end`.
fn span_to(node: &TreeCursor, end: &TreeCursor) -> (r: TextRange)
    requires
        cursor_wf(*node),
    ensures
        r == span_from(start_of(*node), range_of(*node), range_of(*end)),
{
    match find_definition_start(node) {
        Some(start) => TextRange { start: start.start, end: node_range(end).end },
        None => node_range(node),
    }
}

/// The documentation of an item that has no return values.
fn plain_comment(node: &TreeCursor) -> (r: Result<Option<NatSpec>, Error>)
    requires
        cursor_wf(*node),
    ensures
        match r {
            Ok(o) => documentation(*node, Seq::empty()) == Ok::<_, ErrorView>(natspec_view(o)),
            Err(e) => documentation(*node, Seq::empty()) == Err::<Option<Seq<NatSpecItemView>>, _>(
                e.deep_view(),
            ),
        },
{
    let no_returns: Vec<Identifier> = Vec::new();
    assert(ids_view(no_returns@) =~= Seq::<IdentifierView>::empty());
    extract_comment(node, no_returns.as_slice())
}

impl EnumDefinition {
    /// Builds the definition of an enum from the nodes of its definition,
    /// its name and its members.
    pub fn from_nodes(node: &TreeCursor, name: &TreeCursor, members: &TreeCursor) -> (r: Result<
        Definition,
        Error,
    >)
        requires
            cursor_wf(*node),
            cursor_wf(*name),
            cursor_wf(*members),
        ensures
            outcome(r) == enum_view(*node, *name, *members),
    {
        let span = span_to(node, node);
        let name = trim(node_text(name).as_str());
        let members = extract_enum_members(members);
        let natspec = match plain_comment(node) {
            Ok(n) => n,
            Err(e) => {
                return Err(e);
            },
        };
        let parent = extract_parent_name(clone_cursor(node));
        Ok(Definition::Enumeration(EnumDefinition { parent, name, span, members, natspec }))
    }
}

impl ErrorDefinition {
    /// Builds the definition of an error from the nodes of its definition,
    /// its name and its parameters.
    pub fn from_nodes(node: &TreeCursor, name: &TreeCursor, params: &TreeCursor) -> (r: Result<
        Definition,
        Error,
    >)
        requires
            cursor_wf(*node),
            cursor_wf(*name),
            cursor_wf(*params),
        ensures
            outcome(r) == error_view(*node, *name, *params),
    {
        let span = span_to(node, node);
        let name = trim(node_text(name).as_str());
        let params = extract_identifiers(params);
        let natspec = match plain_comment(node) {
            Ok(n) => n,
            Err(e) => {
                return Err(e);
            },
        };
        let parent = extract_parent_name(clone_cursor(node));
        Ok(Definition::Error(ErrorDefinition { parent, name, span, params, natspec }))
    }
}

impl EventDefinition {
    /// Builds the definition of an event from the nodes of its definition,
    /// its name and its parameters.
    pub fn from_nodes(node: &TreeCursor, name: &TreeCursor, params: &TreeCursor) -> (r: Result<
        Definition,
        Error,
    >)
        requires
            cursor_wf(*node),
            cursor_wf(*name),
            cursor_wf(*params),
        ensures
            outcome(r) == event_view(*node, *name, *params),
    {
        let span = span_to(node, node);
        let name = trim(node_text(name).as_str());
        let params = extract_params(params, "EventParameter");
        let natspec = match plain_comment(node) {
            Ok(n) => n,
            Err(e) => {
                return Err(e);
            },
        };
        let parent = extract_parent_name(clone_cursor(node));
        Ok(Definition::Event(EventDefinition { parent, name, span, params, natspec }))
    }
}

impl FunctionDefinition {
    /// Builds the definition of a function from the nodes of its definition,
    /// its name, its parameters, its attributes and its return values.
    pub fn from_nodes(
        node: &TreeCursor,
        name: &TreeCursor,
        params: &TreeCursor,
        attributes: &TreeCursor,
        return_node: &Option<TreeCursor>,
    ) -> (r: Result<Definition, Error>)
        requires
            cursor_wf(*node),
            cursor_wf(*name),
            cursor_wf(*params),
            cursor_wf(*attributes),
            *return_node matches Some(c) ==> cursor_wf(c),
        ensures
            outcome(r) == function_view(*node, *name, *params, *attributes, *return_node),
    {
        let start = match find_definition_start(node) {
            Some(s) => s,
            None => node_range(node),
        };
        let end = match return_node {
            Some(c) => node_range(c),
            None => node_range(attributes),
        };
        let span = TextRange { start: start.start, end: end.end };
        let name = trim(node_text(name).as_str());
        let params = extract_params(params, "Parameter");
        let return_values = match return_node {
            Some(c) => extract_params(c, "Parameter"),
            None => Vec::new(),
        };
        assert(return_values.deep_view() =~= ids_view(return_values@));
        assert(return_values.deep_view() == return_values_of(*return_node));
        let natspec = match extract_comment(node, return_values.as_slice()) {
            Ok(n) => n,
            Err(e) => {
                return Err(e);
            },
        };
        let parent = extract_parent_name(clone_cursor(node));
        let attributes = extract_attributes(attributes);
        Ok(
            Definition::Function(
                FunctionDefinition {
                    parent,
                    name,
                    span,
                    params,
                    returns: return_values,
                    natspec,
                    attributes,
                },
            ),
        )
    }
}

impl ModifierDefinition {
    /// Builds the definition of a modifier from the nodes of its definition,
    /// its name, its parameters (if it has a parameter list) and its
    /// attributes.
    pub fn from_nodes(
        node: &TreeCursor,
        name: &TreeCursor,
        params: &Option<TreeCursor>,
        attr: &TreeCursor,
    ) -> (r: Result<Definition, Error>)
        requires
            cursor_wf(*node),
            cursor_wf(*name),
            *params matches Some(c) ==> cursor_wf(c),
            cursor_wf(*attr),
        ensures
            outcome(r) == modifier_view(*node, *name, *params, *attr),
    {
        let start = match find_definition_start(node) {
            Some(s) => s,
            None => node_range(node),
        };
        let end = match params {
            Some(c) => node_range(c),
            None => node_range(attr),
        };
        let span = TextRange { start: start.start, end: end.end };
        let name = trim(node_text(name).as_str());
        let param_ids = match params {
            Some(c) => extract_params(c, "Parameter"),
            None => Vec::new(),
        };
        assert(param_ids.deep_view() =~= return_values_of(*params));
        let natspec = match plain_comment(node) {
            Ok(n) => n,
            Err(e) => {
                return Err(e);
            },
        };
        let parent = extract_parent_name(clone_cursor(node));
        let attributes = extract_attributes(attr);
        Ok(
            Definition::Modifier(
                ModifierDefinition { parent, name, span, params: param_ids, natspec, attributes },
            ),
        )
    }
}

impl StructDefinition {
    /// Builds the definition of a struct from the nodes of its definition
    /// and its name, and its members.
    pub fn from_nodes(node: &TreeCursor, name: &TreeCursor, members: Vec<Identifier>) -> (r: Result<
        Definition,
        Error,
    >)
        requires
            cursor_wf(*node),
            cursor_wf(*name),
        ensures
            outcome(r) == struct_view(*node, *name, members.deep_view()),
    {
        let span = span_to(node, node);
        let name = trim(node_text(name).as_str());
        let natspec = match plain_comment(node) {
            Ok(n) => n,
            Err(e) => {
                return Err(e);
            },
        };
        let parent = extract_parent_name(clone_cursor(node));
        Ok(Definition::Struct(StructDefinition { parent, name, span, members, natspec }))
    }
}

impl VariableDeclaration {
    /// Builds the declaration of a state variable from the nodes of its
    /// definition, its attributes and its name.
    pub fn from_nodes(node: &TreeCursor, attributes: &TreeCursor, name: &TreeCursor) -> (r: Result<
        Definition,
        Error,
    >)
        requires
            cursor_wf(*node),
            cursor_wf(*attributes),
            cursor_wf(*name),
        ensures
            outcome(r) == variable_view(*node, *attributes, *name),
    {
        let span = span_to(node, node);
        let name = trim(node_text(name).as_str());
        let natspec = match plain_comment(node) {
            Ok(n) => n,
            Err(e) => {
                return Err(e);
            },
        };
        let parent = extract_parent_name(clone_cursor(node));
        let attributes = extract_attributes(attributes);
        Ok(Definition::Variable(VariableDeclaration { parent, name, span, natspec, attributes }))
    }
}

/// The node captured first under `name`, if any.
pub open spec fn captured_node(m: QueryHit, name: Seq<char>) -> Option<TreeCursor> {
    match first_captured(m, name) {
        Some(Some(c)) => Some(c),
        _ => None,
    }
}

/// The member that a match of the struct-member query names.
pub open spec fn member_of(m: QueryHit) -> Option<IdentifierView> {
    match captured_node(m, "member_name"@) {
        Some(c) => Some(ident_of(current(c))),
        None => None,
    }
}

/// The members that matches of the struct-member query name, in order;
/// [`Error::UnknownError`] if one of them captured no name.
pub open spec fn members_from(hits: Seq<(usize, QueryHit)>) -> Result<Seq<IdentifierView>, ErrorView> {
    if forall|k: int| 0 <= k < hits.len() ==> (#[trigger] member_of(hits[k].1)) is Some {
        Ok(hits.map_values(|h: (usize, QueryHit)| member_of(h.1)->0))
    } else {
        Err(ErrorView::UnknownError)
    }
}

/// Collects the struct members named by matches of the struct-member query.
pub fn members_from_hits(hits: &Vec<(usize, QueryHit)>) -> (r: Result<Vec<Identifier>, Error>)
    ensures
        match r {
            Ok(v) => members_from(hits@) == Ok::<_, ErrorView>(v.deep_view()),
            Err(e) => members_from(hits@) == Err::<Seq<IdentifierView>, _>(e.deep_view()),
        },
{
    let mut out: Vec<Identifier> = Vec::new();
    let mut k: usize = 0;
    while k < hits.len()
        invariant
            k <= hits@.len(),
            out@.len() == k,
            forall|j: int| 0 <= j < k ==> (#[trigger] member_of(hits@[j].1)) is Some,
            forall|j: int| 0 <= j < k ==> out.deep_view()[j] == member_of(hits@[j].1)->0,
        decreases hits.len() - k,
    {
        let member_name = match capture(&hits[k].1, "member_name") {
            Ok(c) => c,
            Err(e) => {
                assert(member_of(hits@[k as int].1) is None);
                return Err(e);
            },
        };
        let id = identifier_here(&member_name);
        let ghost before = out.deep_view();
        out.push(id);
        assert(out.deep_view() =~= before.push(id.deep_view()));
        k = k + 1;
    }
    assert(out.deep_view() =~= hits@.map_values(|h: (usize, QueryHit)| member_of(h.1)->0));
    Ok(out)
}

/// The query that matches the members of a struct.
pub const STRUCT_MEMBER_QUERY: &'static str = "[StructMember
        @member_name name:[Identifier]
    ]";

/// The members of the struct whose members node the cursor points to: the
/// identifiers that the matches of [`STRUCT_MEMBER_QUERY`] below that node
/// name, in order.
pub open spec fn struct_members(c: TreeCursor) -> Result<Seq<IdentifierView>, ErrorView> {
    match query_result(STRUCT_MEMBER_QUERY@) {
        Err(e) => Err(e),
        Ok(q) => members_from(
            query_matches(
                cursor_tree(c),
                Place { root: cursor_place(c).pos, pos: cursor_place(c).pos, done: false },
                seq![q],
            ),
        ),
    }
}

/// Extracts the identifiers of a struct's members.
pub fn extract_struct_members(cursor: &TreeCursor) -> (r: Result<Vec<Identifier>, Error>)
    ensures
        match r {
            Ok(v) => struct_members(*cursor) == Ok::<_, ErrorView>(v.deep_view()),
            Err(e) => struct_members(*cursor) == Err::<Seq<IdentifierView>, _>(e.deep_view()),
        },
{
    let query = match item_query(STRUCT_MEMBER_QUERY) {
        Ok(q) => q,
        Err(e) => {
            return Err(e);
        },
    };
    let mut queries: Vec<SyntaxQuery> = Vec::new();
    queries.push(query);
    assert(queries@ =~= seq![query]);
    let hits = run_queries(spawn(cursor), &queries);
    members_from_hits(&hits)
}

/// What compiling the query text gives, with a failure reported as
/// [`Error::InvalidQuery`].
pub open spec fn query_result(source: Seq<char>) -> Result<SyntaxQuery, ErrorView> {
    match query_outcome(source) {
        Ok(q) => Ok(q),
        Err(message) => Err(ErrorView::InvalidQuery(message)),
    }
}

pub open spec fn query_view(r: Result<SyntaxQuery, Error>) -> Result<SyntaxQuery, ErrorView> {
    match r {
        Ok(q) => Ok(q),
        Err(e) => Err(e.deep_view()),
    }
}

/// Compiles a query over the syntax tree; a failure is an
/// [`Error::InvalidQuery`].
fn item_query(source: &str) -> (r: Result<SyntaxQuery, Error>)
    ensures
        query_view(r) == query_result(source@),
{
    match compile_query(source) {
        Ok(q) => Ok(q),
        Err(message) => Err(Error::InvalidQuery(message)),
    }
}

/// The query that matches constructors.
pub const CONSTRUCTOR_QUERY: &'static str = "@constructor [ConstructorDefinition
            parameters:[ParametersDeclaration
                @constructor_params parameters:[Parameters]
            ]
            @constructor_attr attributes:[ConstructorAttributes]
        ]";

/// The query that matches enums.
pub const ENUM_QUERY: &'static str = "@enum [EnumDefinition
            @enum_name name:[Identifier]
            @enum_members members:[EnumMembers]
        ]";

/// The query that matches custom errors.
pub const ERROR_QUERY: &'static str = "@err [ErrorDefinition
            @err_name name:[Identifier]
            @err_params members:[ErrorParametersDeclaration]
        ]";

/// The query that matches events.
pub const EVENT_QUERY: &'static str = "@event [EventDefinition
            @event_name name:[Identifier]
            @event_params parameters:[EventParametersDeclaration]
        ]";

/// The query that matches functions.
pub const FUNCTION_QUERY: &'static str = "@function [FunctionDefinition
            @keyword function_keyword:[FunctionKeyword]
            @function_name name:[FunctionName]
            parameters:[ParametersDeclaration
                @function_params parameters:[Parameters]
            ]
            @function_attr attributes:[FunctionAttributes]
            returns:[ReturnsDeclaration
                variables:[ParametersDeclaration
                    @function_returns parameters:[Parameters]
                ]
            ]?
        ]";

/// The query that matches modifiers.
pub const MODIFIER_QUERY: &'static str = "@modifier [ModifierDefinition
            @modifier_name name:[Identifier]
            parameters:[ParametersDeclaration
                @modifier_params parameters:[Parameters]
            ]?
            @modifier_attr attributes:[ModifierAttributes]
        ]";

/// The query that matches structs.
pub const STRUCT_QUERY: &'static str = "@struct [StructDefinition
            @struct_name name:[Identifier]
            @struct_members members:[StructMembers]
        ]";

/// The query that matches state variables.
pub const VARIABLE_QUERY: &'static str = "@variable [StateVariableDefinition
            @variable_attr attributes:[StateVariableAttributes]
            @variable_name name:[Identifier]
        ]";

/// The texts of the queries for all source items, in this order:
/// constructors, enums, errors, events, functions, modifiers, structs, state
/// variables.
pub open spec fn item_sources() -> Seq<Seq<char>> {
    seq![
        CONSTRUCTOR_QUERY@,
        ENUM_QUERY@,
        ERROR_QUERY@,
        EVENT_QUERY@,
        FUNCTION_QUERY@,
        MODIFIER_QUERY@,
        STRUCT_QUERY@,
        VARIABLE_QUERY@,
    ]
}

/// Compiles the query texts in order: the queries, or the error of the first
/// text that does not compile.
pub open spec fn compile_all(sources: Seq<Seq<char>>) -> Result<Seq<SyntaxQuery>, ErrorView>
    decreases sources.len(),
{
    if sources.len() == 0 {
        Ok(Seq::empty())
    } else {
        match compile_all(sources.drop_last()) {
            Err(e) => Err(e),
            Ok(qs) => match query_result(sources.last()) {
                Err(e) => Err(e),
                Ok(q) => Ok(qs.push(q)),
            },
        }
    }
}

/// Compiling one more text: the queries so far and the new one, or the
/// first error.
pub proof fn lemma_compile_step(sources: Seq<Seq<char>>, k: int)
    requires
        0 <= k < sources.len(),
    ensures
        compile_all(sources.take(k + 1)) == match compile_all(sources.take(k)) {
            Err(e) => Err(e),
            Ok(qs) => match query_result(sources[k]) {
                Err(e) => Err(e),
                Ok(q) => Ok(qs.push(q)),
            },
        },
{
    assert(sources.take(k + 1).drop_last() =~= sources.take(k));
    assert(sources.take(k + 1).last() == sources[k]);
}

/// Once a text fails to compile, compiling more texts gives the same error.
pub proof fn lemma_compile_error_stays(sources: Seq<Seq<char>>, k: int)
    requires
        0 <= k <= sources.len(),
        compile_all(sources.take(k)) is Err,
    ensures
        compile_all(sources) == compile_all(sources.take(k)),
    decreases sources.len() - k,
{
    if k == sources.len() {
        assert(sources.take(k) =~= sources);
    } else {
        lemma_compile_step(sources, k);
        lemma_compile_error_stays(sources, k + 1);
    }
}

/// Compiling gives one query per text, or an [`ErrorView::InvalidQuery`].
pub proof fn lemma_compile_all_shape(sources: Seq<Seq<char>>)
    ensures
        compile_all(sources) matches Ok(qs) ==> qs.len() == sources.len(),
        compile_all(sources) matches Err(e) ==> e is InvalidQuery,
    decreases sources.len(),
{
    if sources.len() > 0 {
        lemma_compile_all_shape(sources.drop_last());
    }
}

/// Extraction of one kind of source item from the matches of its query.
pub trait Extract {
    /// The query that matches the source items of this kind.
    fn query() -> Result<SyntaxQuery, Error>;

    /// Builds the definition of the source item that a match found.
    fn extract(m: &QueryHit) -> Result<Definition, Error>;
}

pub open spec fn unknown() -> Result<DefinitionView, ErrorView> {
    Err(ErrorView::UnknownError)
}

pub open spec fn extracted_constructor(m: QueryHit) -> Result<DefinitionView, ErrorView> {
    match (
        captured_node(m, "constructor"@),
        captured_node(m, "constructor_params"@),
        captured_node(m, "constructor_attr"@),
    ) {
        (Some(node), Some(params), Some(attr)) => constructor_view(node, params, attr),
        _ => unknown(),
    }
}

pub open spec fn extracted_enum(m: QueryHit) -> Result<DefinitionView, ErrorView> {
    match (
        captured_node(m, "enum"@),
        captured_node(m, "enum_name"@),
        captured_node(m, "enum_members"@),
    ) {
        (Some(node), Some(name), Some(members)) => enum_view(node, name, members),
        _ => unknown(),
    }
}

pub open spec fn extracted_error(m: QueryHit) -> Result<DefinitionView, ErrorView> {
    match (captured_node(m, "err"@), captured_node(m, "err_name"@), captured_node(m, "err_params"@)) {
        (Some(node), Some(name), Some(params)) => error_view(node, name, params),
        _ => unknown(),
    }
}

pub open spec fn extracted_event(m: QueryHit) -> Result<DefinitionView, ErrorView> {
    match (
        captured_node(m, "event"@),
        captured_node(m, "event_name"@),
        captured_node(m, "event_params"@),
    ) {
        (Some(node), Some(name), Some(params)) => event_view(node, name, params),
        _ => unknown(),
    }
}

pub open spec fn extracted_function(m: QueryHit) -> Result<DefinitionView, ErrorView> {
    match (
        captured_node(m, "function"@),
        captured_node(m, "function_name"@),
        captured_node(m, "function_params"@),
        captured_node(m, "function_attr"@),
        first_captured(m, "function_returns"@),
    ) {
        (Some(node), Some(name), Some(params), Some(attr), Some(ret)) => function_view(
            node,
            name,
            params,
            attr,
            ret,
        ),
        _ => unknown(),
    }
}

pub open spec fn extracted_modifier(m: QueryHit) -> Result<DefinitionView, ErrorView> {
    match (
        captured_node(m, "modifier"@),
        captured_node(m, "modifier_name"@),
        first_captured(m, "modifier_params"@),
        captured_node(m, "modifier_attr"@),
    ) {
        (Some(node), Some(name), Some(params), Some(attr)) => modifier_view(node, name, params, attr),
        _ => unknown(),
    }
}

pub open spec fn extracted_struct(m: QueryHit) -> Result<DefinitionView, ErrorView> {
    match (
        captured_node(m, "struct"@),
        captured_node(m, "struct_name"@),
        captured_node(m, "struct_members"@),
    ) {
        (Some(node), Some(name), Some(members)) => match struct_members(members) {
            Err(e) => Err(e),
            Ok(mv) => struct_view(node, name, mv),
        },
        _ => unknown(),
    }
}

pub open spec fn extracted_variable(m: QueryHit) -> Result<DefinitionView, ErrorView> {
    match (
        captured_node(m, "variable"@),
        captured_node(m, "variable_attr"@),
        captured_node(m, "variable_name"@),
    ) {
        (Some(node), Some(attr), Some(name)) => variable_view(node, attr, name),
        _ => unknown(),
    }
}

impl Extract for ConstructorDefinition {
    fn query() -> (r: Result<SyntaxQuery, Error>)
        ensures
            query_view(r) == query_result(CONSTRUCTOR_QUERY@),
    {
        item_query(CONSTRUCTOR_QUERY)
    }

    fn extract(m: &QueryHit) -> (r: Result<Definition, Error>)
        ensures
            outcome(r) == extracted_constructor(*m),
    {
        let node = capture(m, "constructor")?;
        let params = capture(m, "constructor_params")?;
        let attr = capture(m, "constructor_attr")?;
        Self::from_nodes(&node, &params, &attr)
    }
}

impl Extract for EnumDefinition {
    fn query() -> (r: Result<SyntaxQuery, Error>)
        ensures
            query_view(r) == query_result(ENUM_QUERY@),
    {
        item_query(ENUM_QUERY)
    }

    fn extract(m: &QueryHit) -> (r: Result<Definition, Error>)
        ensures
            outcome(r) == extracted_enum(*m),
    {
        let node = capture(m, "enum")?;
        let name = capture(m, "enum_name")?;
        let members = capture(m, "enum_members")?;
        Self::from_nodes(&node, &name, &members)
    }
}

impl Extract for ErrorDefinition {
    fn query() -> (r: Result<SyntaxQuery, Error>)
        ensures
            query_view(r) == query_result(ERROR_QUERY@),
    {
        item_query(ERROR_QUERY)
    }

    fn extract(m: &QueryHit) -> (r: Result<Definition, Error>)
        ensures
            outcome(r) == extracted_error(*m),
    {
        let node = capture(m, "err")?;
        let name = capture(m, "err_name")?;
        let params = capture(m, "err_params")?;
        Self::from_nodes(&node, &name, &params)
    }
}

impl Extract for EventDefinition {
    fn query() -> (r: Result<SyntaxQuery, Error>)
        ensures
            query_view(r) == query_result(EVENT_QUERY@),
    {
        item_query(EVENT_QUERY)
    }

    fn extract(m: &QueryHit) -> (r: Result<Definition, Error>)
        ensures
            outcome(r) == extracted_event(*m),
    {
        let node = capture(m, "event")?;
        let name = capture(m, "event_name")?;
        let params = capture(m, "event_params")?;
        Self::from_nodes(&node, &name, &params)
    }
}

impl Extract for FunctionDefinition {
    fn query() -> (r: Result<SyntaxQuery, Error>)
        ensures
            query_view(r) == query_result(FUNCTION_QUERY@),
    {
        item_query(FUNCTION_QUERY)
    }

    fn extract(m: &QueryHit) -> (r: Result<Definition, Error>)
        ensures
            outcome(r) == extracted_function(*m),
    {
        let node = capture(m, "function")?;
        let name = capture(m, "function_name")?;
        let params = capture(m, "function_params")?;
        let attributes = capture(m, "function_attr")?;
        let return_node = capture_opt(m, "function_returns")?;
        Self::from_nodes(&node, &name, &params, &attributes, &return_node)
    }
}

impl Extract for ModifierDefinition {
    fn query() -> (r: Result<SyntaxQuery, Error>)
        ensures
            query_view(r) == query_result(MODIFIER_QUERY@),
    {
        item_query(MODIFIER_QUERY)
    }

    fn extract(m: &QueryHit) -> (r: Result<Definition, Error>)
        ensures
            outcome(r) == extracted_modifier(*m),
    {
        let node = capture(m, "modifier")?;
        let name = capture(m, "modifier_name")?;
        let params = capture_opt(m, "modifier_params")?;
        let attr = capture(m, "modifier_attr")?;
        Self::from_nodes(&node, &name, &params, &attr)
    }
}

impl Extract for StructDefinition {
    fn query() -> (r: Result<SyntaxQuery, Error>)
        ensures
            query_view(r) == query_result(STRUCT_QUERY@),
    {
        item_query(STRUCT_QUERY)
    }

    fn extract(m: &QueryHit) -> (r: Result<Definition, Error>)
        ensures
            outcome(r) == extracted_struct(*m),
    {
        let node = capture(m, "struct")?;
        let name = capture(m, "struct_name")?;
        let members = capture(m, "struct_members")?;
        let members = match extract_struct_members(&members) {
            Ok(v) => v,
            Err(e) => {
                return Err(e);
            },
        };
        Self::from_nodes(&node, &name, members)
    }
}

impl Extract for VariableDeclaration {
    fn query() -> (r: Result<SyntaxQuery, Error>)
        ensures
            query_view(r) == query_result(VARIABLE_QUERY@),
    {
        item_query(VARIABLE_QUERY)
    }

    fn extract(m: &QueryHit) -> (r: Result<Definition, Error>)
        ensures
            outcome(r) == extracted_variable(*m),
    {
        let node = capture(m, "variable")?;
        let attr = capture(m, "variable_attr")?;
        let name = capture(m, "variable_name")?;
        Self::from_nodes(&node, &attr, &name)
    }
}

/// The definition that stands for a failed extraction.
pub open spec fn failure_view(e: ErrorView) -> DefinitionView {
    DefinitionView { error: Some(e), ..empty_view(DefinitionKind::Failure) }
}

pub open spec fn or_failure(r: Result<DefinitionView, ErrorView>) -> DefinitionView {
    match r {
        Ok(d) => d,
        Err(e) => failure_view(e),
    }
}

/// Functions and modifiers: the items that a file can declare twice in the
/// same words (overloads aside), and that the parser reports once.
pub open spec fn is_callable(d: DefinitionView) -> bool {
    d.kind is Function || d.kind is Modifier
}

/// No function or modifier appears twice.
pub open spec fn callables_distinct(v: Seq<DefinitionView>) -> bool {
    forall|i: int, j: int| 0 <= i < j < v.len() && is_callable(v[j]) ==> v[i] != v[j]
}

/// The definition, or the failure that takes its place.
fn definition_or_failure(r: Result<Definition, Error>) -> (d: Definition)
    ensures
        d.deep_view() == or_failure(outcome(r)),
{
    match r {
        Ok(d) => d,
        Err(e) => Definition::NatspecParsingError(e),
    }
}

/// The views of the definitions found, each with the number of the query
/// that found it.
pub open spec fn found_views(found: Seq<(usize, Definition)>) -> Seq<(usize, DefinitionView)> {
    found.map_values(|e: (usize, Definition)| (e.0, e.1.deep_view()))
}

/// The list of definitions that [`SlangParser::collect_definitions`] builds:
/// the definitions found, in order, where a function or modifier (query 4 or
/// 5) that is already listed is left out.
pub open spec fn collected(found: Seq<(usize, DefinitionView)>) -> Seq<DefinitionView>
    decreases found.len(),
{
    if found.len() == 0 {
        Seq::empty()
    } else {
        let out = collected(found.drop_last());
        let (kind, d) = found.last();
        if (kind == 4 || kind == 5) && out.contains(d) {
            out
        } else {
            out.push(d)
        }
    }
}

/// Every function or modifier was found by query 4 or 5.
pub open spec fn callables_come_from_callable_queries(found: Seq<(usize, DefinitionView)>) -> bool {
    forall|k: int| 0 <= k < found.len() && is_callable(#[trigger] found[k].1) ==> found[k].0 == 4 || found[k].0 == 5
}

/// Law: when functions and modifiers come only from their own queries, no
/// function or modifier is listed twice.
pub proof fn lemma_collected_callables_distinct(found: Seq<(usize, DefinitionView)>)
    requires
        callables_come_from_callable_queries(found),
    ensures
        callables_distinct(collected(found)),
    decreases found.len(),
{
    if found.len() > 0 {
        let prefix = found.drop_last();
        assert forall|k: int| 0 <= k < prefix.len() && is_callable(#[trigger] prefix[k].1) implies prefix[k].0
            == 4 || prefix[k].0 == 5 by {
            assert(prefix[k] == found[k]);
        }
        lemma_collected_callables_distinct(prefix);
        let out = collected(prefix);
        let (kind, d) = found.last();
        if !((kind == 4 || kind == 5) && out.contains(d)) {
            let v = out.push(d);
            assert forall|i: int, j: int| 0 <= i < j < v.len() && is_callable(v[j]) implies v[i] != v[j] by {
                if j == v.len() - 1 {
                    assert(found[found.len() - 1].1 == d);
                    assert(v[i] == out[i]);
                    if v[i] == v[j] {
                        assert(out.contains(d));
                    }
                } else {
                    assert(v[i] == out[i] && v[j] == out[j]);
                }
            }
        }
    }
}

/// Law: every definition found is listed (removing duplicates loses
/// nothing).
pub proof fn lemma_collected_keeps_all(found: Seq<(usize, DefinitionView)>, k: int)
    requires
        0 <= k < found.len(),
    ensures
        collected(found).contains(found[k].1),
    decreases found.len(),
{
    let prefix = found.drop_last();
    let out = collected(prefix);
    let (kind, d) = found.last();
    if k < found.len() - 1 {
        lemma_collected_keeps_all(prefix, k);
        assert(prefix[k] == found[k]);
        let i = choose|i: int| 0 <= i < out.len() && out[i] == found[k].1;
        if !((kind == 4 || kind == 5) && out.contains(d)) {
            assert(out.push(d)[i] == found[k].1);
        }
    } else {
        if !((kind == 4 || kind == 5) && out.contains(d)) {
            assert(out.push(d)[out.len() as int] == d);
        }
    }
}

/// Law: only definitions that were found are listed.
pub proof fn lemma_collected_only_found(found: Seq<(usize, DefinitionView)>, i: int)
    requires
        0 <= i < collected(found).len(),
    ensures
        exists|k: int| 0 <= k < found.len() && #[trigger] found[k].1 == collected(found)[i],
    decreases found.len(),
{
    let prefix = found.drop_last();
    let out = collected(prefix);
    let (kind, d) = found.last();
    if i < out.len() {
        lemma_collected_only_found(prefix, i);
        let k = choose|k: int| 0 <= k < prefix.len() && #[trigger] prefix[k].1 == out[i];
        assert(found[k] == prefix[k]);
        if !((kind == 4 || kind == 5) && out.contains(d)) {
            assert(out.push(d)[i] == out[i]);
        }
    } else {
        assert(found[found.len() - 1].1 == collected(found)[i]);
    }
}

/// What a match of query number `kind` (in the order of [`item_sources`])
/// gives: the definition extracted from it, or the failure that takes its
/// place.
pub open spec fn found_def(kind: usize, m: QueryHit) -> DefinitionView {
    or_failure(
        if kind == 0 {
            extracted_constructor(m)
        } else if kind == 1 {
            extracted_enum(m)
        } else if kind == 2 {
            extracted_error(m)
        } else if kind == 3 {
            extracted_event(m)
        } else if kind == 4 {
            extracted_function(m)
        } else if kind == 5 {
            extracted_modifier(m)
        } else if kind == 6 {
            extracted_struct(m)
        } else {
            extracted_variable(m)
        },
    )
}

/// The definitions that the matches give, each with the number of the query
/// that found it.
pub open spec fn found_in(hits: Seq<(usize, QueryHit)>) -> Seq<(usize, DefinitionView)> {
    hits.map_values(|h: (usize, QueryHit)| (h.0, found_def(h.0, h.1)))
}

/// The list of definitions that the matches give (see [`collected`]).
pub open spec fn definitions_of(hits: Seq<(usize, QueryHit)>) -> Seq<DefinitionView> {
    collected(found_in(hits))
}

/// Whether the list holds the definition.
pub fn contains_definition(out: &Vec<Definition>, def: &Definition) -> (r: bool)
    ensures
        r == out.deep_view().contains(def.deep_view()),
{
    let mut k: usize = 0;
    while k < out.len()
        invariant
            k <= out@.len(),
            forall|j: int| 0 <= j < k ==> out.deep_view()[j] != def.deep_view(),
        decreases out.len() - k,
    {
        if same_definition(&out[k], def) {
            assert(out.deep_view()[k as int] == def.deep_view());
            return true;
        }
        k = k + 1;
    }
    false
}

/// Adds the definition found by query number `kind` to the list; a function
/// (query 4) or a modifier (query 5) that the list already holds is left out.
pub fn add_definition(out: &mut Vec<Definition>, kind: usize, def: Definition)
    ensures
        if (kind == 4 || kind == 5) && old(out).deep_view().contains(def.deep_view()) {
            final(out).deep_view() == old(out).deep_view()
        } else {
            final(out).deep_view() == old(out).deep_view().push(def.deep_view())
        },
{
    if (kind == 4 || kind == 5) && contains_definition(out, &def) {
        return;
    }
    let ghost before = out.deep_view();
    let ghost dv = def.deep_view();
    out.push(def);
    assert(out.deep_view() =~= before.push(dv));
}

/// A parser that uses `slang_solidity` to identify source items.
#[derive(Debug, Clone, Copy)]
#[non_exhaustive]
pub struct SlangParser {
    pub skip_version_detection: bool,
}

impl Default for SlangParser {
    fn default() -> (r: SlangParser)
        ensures
            !r.skip_version_detection,
    {
        SlangParser { skip_version_detection: false }
    }
}

/// A parsed source file: the items it defines, and its contents if they were
/// asked for.
pub struct ParsedDocument {
    pub definitions: Vec<Definition>,
    pub contents: Option<String>,
}

impl SlangParser {
    pub fn new(skip_version_detection: bool) -> (r: SlangParser)
        ensures
            r.skip_version_detection == skip_version_detection,
    {
        SlangParser { skip_version_detection }
    }

    /// The query of the source items of kind number `kind`, in the order of
    /// [`item_sources`].
    fn query_of(kind: usize) -> (r: Result<SyntaxQuery, Error>)
        requires
            kind < 8,
        ensures
            query_view(r) == query_result(item_sources()[kind as int]),
    {
        if kind == 0 {
            ConstructorDefinition::query()
        } else if kind == 1 {
            EnumDefinition::query()
        } else if kind == 2 {
            ErrorDefinition::query()
        } else if kind == 3 {
            EventDefinition::query()
        } else if kind == 4 {
            FunctionDefinition::query()
        } else if kind == 5 {
            ModifierDefinition::query()
        } else if kind == 6 {
            StructDefinition::query()
        } else {
            VariableDeclaration::query()
        }
    }

    /// The queries for all source items, in this order: constructors, enums,
    /// errors, events, functions, modifiers, structs, state variables. The
    /// first query that does not compile gives the error.
    pub fn queries() -> (r: Result<Vec<SyntaxQuery>, Error>)
        ensures
            match r {
                Ok(v) => compile_all(item_sources()) == Ok::<_, ErrorView>(v@),
                Err(e) => compile_all(item_sources()) == Err::<Seq<SyntaxQuery>, _>(e.deep_view()),
            },
    {
        let ghost srcs = item_sources();
        let mut v: Vec<SyntaxQuery> = Vec::new();
        let mut kind: usize = 0;
        assert(srcs.take(0) =~= Seq::<Seq<char>>::empty());
        while kind < 8
            invariant
                kind <= 8,
                srcs == item_sources(),
                compile_all(srcs.take(kind as int)) == Ok::<_, ErrorView>(v@),
            decreases 8 - kind,
        {
            proof {
                lemma_compile_step(srcs, kind as int);
            }
            match Self::query_of(kind) {
                Ok(q) => {
                    v.push(q);
                },
                Err(e) => {
                    proof {
                        lemma_compile_error_stays(srcs, kind as int + 1);
                    }
                    return Err(e);
                },
            }
            kind = kind + 1;
        }
        assert(srcs.take(8) =~= srcs);
        Ok(v)
    }

    /// The definition that a match of query number `kind` finds.
    fn definition_of(kind: usize, m: &QueryHit) -> (d: Definition)
        requires
            kind < 8,
        ensures
            d.deep_view() == found_def(kind, *m),
            is_callable(d.deep_view()) ==> kind == 4 || kind == 5,
    {
        if kind == 0 {
            definition_or_failure(ConstructorDefinition::extract(m))
        } else if kind == 1 {
            definition_or_failure(EnumDefinition::extract(m))
        } else if kind == 2 {
            definition_or_failure(ErrorDefinition::extract(m))
        } else if kind == 3 {
            definition_or_failure(EventDefinition::extract(m))
        } else if kind == 4 {
            definition_or_failure(FunctionDefinition::extract(m))
        } else if kind == 5 {
            definition_or_failure(ModifierDefinition::extract(m))
        } else if kind == 6 {
            definition_or_failure(StructDefinition::extract(m))
        } else {
            definition_or_failure(VariableDeclaration::extract(m))
        }
    }

    /// Lists the definitions found, in order, leaving out each function or
    /// modifier (found by query 4 or 5) that is already listed.
    pub fn collect_definitions(found: Vec<(usize, Definition)>) -> (r: Vec<Definition>)
        ensures
            r.deep_view() == collected(found_views(found@)),
    {
        let ghost fv = found_views(found@);
        let mut found = found;
        let mut out: Vec<Definition> = Vec::new();
        while found.len() > 0
            invariant
                found_views(found@).len() <= fv.len(),
                found_views(found@) == fv.subrange(fv.len() - found_views(found@).len(), fv.len() as int),
                out.deep_view() == collected(fv.subrange(0, fv.len() - found_views(found@).len())),
            decreases found.len(),
        {
            let ghost before = found@;
            let ghost k = fv.len() - found_views(before).len();
            let (kind, def) = found.remove(0);
            proof {
                assert(found_views(found@) =~= found_views(before).subrange(1, before.len() as int));
                assert(found_views(before)[0] == fv[k]);
                assert(fv.subrange(0, k + 1).drop_last() =~= fv.subrange(0, k));
            }
            add_definition(&mut out, kind, def);
        }
        assert(fv.subrange(0, fv.len() as int) =~= fv);
        out
    }

    /// The definitions that the matches of [`SlangParser::queries`] give, in
    /// order, each function or modifier listed once.
    pub fn definitions_from_hits(hits: &Vec<(usize, QueryHit)>) -> (r: Vec<Definition>)
        requires
            forall|j: int| 0 <= j < hits@.len() ==> #[trigger] hits@[j].0 < 8,
        ensures
            r.deep_view() == definitions_of(hits@),
            callables_distinct(r.deep_view()),
    {
        let mut found: Vec<(usize, Definition)> = Vec::new();
        let mut k: usize = 0;
        while k < hits.len()
            invariant
                k <= hits@.len(),
                forall|j: int| 0 <= j < hits@.len() ==> #[trigger] hits@[j].0 < 8,
                found_views(found@) == found_in(hits@.take(k as int)),
                callables_come_from_callable_queries(found_views(found@)),
            decreases hits.len() - k,
        {
            let kind = hits[k].0;
            assert(hits@[k as int].0 < 8);
            let def = Self::definition_of(kind, &hits[k].1);
            let ghost before = found@;
            found.push((kind, def));
            assert(found_views(found@) =~= found_views(before).push((kind, def.deep_view())));
            assert(found_in(hits@.take(k as int + 1)) =~= found_in(hits@.take(k as int)).push(
                (kind, found_def(kind, hits@[k as int].1)),
            ));
            k = k + 1;
        }
        assert(hits@.take(hits@.len() as int) =~= hits@);
        let ghost fv = found_views(found@);
        let out = Self::collect_definitions(found);
        proof {
            lemma_collected_callables_distinct(fv);
        }
        out
    }

    /// Finds the source item definitions in the tree below the cursor.
    ///
    /// Each match of [`SlangParser::queries`] gives one definition (or the
    /// failure to extract it), in the order of the matches; a function or a
    /// modifier that was already found is not added again.
    pub fn find_items(cursor: TreeCursor) -> (r: Result<Vec<Definition>, Error>)
        ensures
            match compile_all(item_sources()) {
                Ok(qs) => r matches Ok(v) && v.deep_view() == definitions_of(
                    query_matches(cursor_tree(cursor), cursor_place(cursor), qs),
                ),
                Err(e) => r matches Err(x) && x.deep_view() == e,
            },
            r matches Ok(v) ==> callables_distinct(v.deep_view()),
            r matches Err(e) ==> e is InvalidQuery,
    {
        proof {
            lemma_compile_all_shape(item_sources());
        }
        let queries = match Self::queries() {
            Ok(q) => q,
            Err(e) => {
                return Err(e);
            },
        };
        let hits = run_queries(cursor, &queries);
        Ok(Self::definitions_from_hits(&hits))
    }

    /// Parses Solidity source text into a syntax tree, and gives a cursor at
    /// its root.
    ///
    /// The version of the language is the latest one the parser supports when
    /// version detection is skipped, and the one the source's `pragma
    /// solidity` directive asks for otherwise.
    pub fn parse_tree(&self, contents: &str) -> (r: Result<TreeCursor, Error>)
        ensures
            match parsed_tree(self.skip_version_detection, contents@) {
                Ok(t) => r matches Ok(c) && cursor_tree(c) == t && cursor_place(c) == root_place()
                    && cursor_wf(c),
                Err(e) => r matches Err(x) && x.deep_view() == e,
            },
            self.skip_version_detection ==> !(r matches Err(x) && x is UnsupportedVersion),
            r matches Err(x) && x is UnsupportedVersion ==> chosen_version(
                self.skip_version_detection,
                contents@,
            ) is Err,
    {
        proof {
            lemma_detected_supported(contents@);
            lemma_latest_supported();
        }
        let version = if self.skip_version_detection {
            get_latest_supported_version()
        } else {
            match detect_solidity_version(contents) {
                Ok(v) => v,
                Err(e) => {
                    return Err(e);
                },
            }
        };
        match parse_to_cursor(version, contents) {
            ParseOutcome::Unsupported => Err(Error::UnsupportedVersion),
            ParseOutcome::Invalid(Some(message)) => Err(Error::ParsingError(message)),
            ParseOutcome::Invalid(None) => Err(Error::UnknownError),
            ParseOutcome::Valid(cursor) => Ok(cursor),
        }
    }

    /// Parses a Solidity source file and finds its source items.
    ///
    /// The version of the language is the latest one the parser supports when
    /// version detection is skipped, and the one the source's `pragma
    /// solidity` directive asks for otherwise. The contents are kept in the
    /// result when `keep_contents` is set; the definitions do not depend on it.
    pub fn parse_document(&self, contents: String, keep_contents: bool) -> (r: Result<
        ParsedDocument,
        Error,
    >)
        ensures
            match document_definitions(self.skip_version_detection, contents@) {
                Ok(defs) => r matches Ok(doc) && doc.definitions.deep_view() == defs && (if keep_contents {
                    doc.contents matches Some(c) && c@ == contents@
                } else {
                    doc.contents is None
                }),
                Err(e) => r matches Err(x) && x.deep_view() == e,
            },
            r matches Ok(doc) ==> callables_distinct(doc.definitions.deep_view()),
            self.skip_version_detection ==> !(r matches Err(x) && x is UnsupportedVersion),
    {
        let cursor = match self.parse_tree(contents.as_str()) {
            Ok(c) => c,
            Err(e) => {
                return Err(e);
            },
        };
        proof {
            lemma_compile_all_shape(item_sources());
        }
        let definitions = match Self::find_items(cursor) {
            Ok(d) => d,
            Err(e) => {
                return Err(e);
            },
        };
        let contents = if keep_contents {
            Some(contents)
        } else {
            None
        };
        Ok(ParsedDocument { definitions, contents })
    }
}

/// The version that parsing uses: the latest supported one when version
/// detection is skipped, and the detected one otherwise.
pub open spec fn chosen_version(skip: bool, contents: Seq<char>) -> Result<SolidityVersion, ErrorView> {
    if skip {
        Ok(latest_version())
    } else {
        detected_version(contents)
    }
}

/// The tree that parsing the contents gives, or the error: the version's
/// error, [`ErrorView::UnsupportedVersion`] when the parser does not take the
/// version, and the message of slang's first parse error (or
/// [`ErrorView::UnknownError`] without one) when the source does not parse.
pub open spec fn parsed_tree(skip: bool, contents: Seq<char>) -> Result<Seq<NodeView>, ErrorView> {
    match chosen_version(skip, contents) {
        Err(e) => Err(e),
        Ok(v) => match parsed_source(v, contents) {
            ParsedView::Unsupported => Err(ErrorView::UnsupportedVersion),
            ParsedView::Invalid(Some(m)) => Err(ErrorView::ParsingError(m)),
            ParsedView::Invalid(None) => Err(ErrorView::UnknownError),
            ParsedView::Valid(t) => Ok(t),
        },
    }
}

/// Where a cursor at the root of a tree stands.
pub open spec fn root_place() -> Place {
    Place { root: 0, pos: 0, done: false }
}

/// The definitions that a source file gives: those that the queries of the
/// source items find in its tree (see [`definitions_of`]), or the error of
/// the parse or of the queries.
pub open spec fn document_definitions(skip: bool, contents: Seq<char>) -> Result<
    Seq<DefinitionView>,
    ErrorView,
> {
    match parsed_tree(skip, contents) {
        Err(e) => Err(e),
        Ok(t) => match compile_all(item_sources()) {
            Err(e) => Err(e),
            Ok(qs) => Ok(definitions_of(query_matches(t, root_place(), qs))),
        },
    }
}

} // verus!
