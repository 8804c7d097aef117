//! NatSpec documentation comments.
use vstd::prelude::*;
use vstd::string::StrSliceExecFns;
use crate::definitions::{ids_view, Identifier, IdentifierView};
use crate::text::{
    find_char, find_char_exec, is_space, lemma_find_char, lemma_skip_space_back_at,
    lemma_skip_space_to_at, lemma_word_end_at, skip_space_back, skip_space_back_exec,
    skip_space_exec, skip_space_to, substring, word_end, word_end_exec,
};

verus! {

/// The tag of a NatSpec item.
#[derive(Clone, Debug, PartialEq, Eq)]
pub enum NatSpecKind {
    Title,
    Author,
    Notice,
    Dev,
    Param { name: String },
    Return { name: Option<String> },
    Inheritdoc { parent: String },
    Custom { tag: String },
}

pub enum NatSpecKindView {
    Title,
    Author,
    Notice,
    Dev,
    Param { name: Seq<char> },
    Return { name: Option<Seq<char>> },
    Inheritdoc { parent: Seq<char> },
    Custom { tag: Seq<char> },
}

impl DeepView for NatSpecKind {
    type V = NatSpecKindView;

    open spec fn deep_view(&self) -> NatSpecKindView {
        match self {
            NatSpecKind::Title => NatSpecKindView::Title,
            NatSpecKind::Author => NatSpecKindView::Author,
            NatSpecKind::Notice => NatSpecKindView::Notice,
            NatSpecKind::Dev => NatSpecKindView::Dev,
            NatSpecKind::Param { name } => NatSpecKindView::Param { name: name@ },
            NatSpecKind::Return { name } => NatSpecKindView::Return { name: name.deep_view() },
            NatSpecKind::Inheritdoc { parent } => NatSpecKindView::Inheritdoc { parent: parent@ },
            NatSpecKind::Custom { tag } => NatSpecKindView::Custom { tag: tag@ },
        }
    }
}

/// One tagged piece of a NatSpec comment.
#[derive(Clone, Debug, PartialEq, Eq)]
pub struct NatSpecItem {
    pub kind: NatSpecKind,
    pub comment: String,
}

pub struct NatSpecItemView {
    pub kind: NatSpecKindView,
    pub comment: Seq<char>,
}

impl NatSpecKind {
    /// A copy of the kind.
    pub fn duplicate(&self) -> (r: NatSpecKind)
        ensures
            r.deep_view() == self.deep_view(),
    {
        match self {
            NatSpecKind::Title => NatSpecKind::Title,
            NatSpecKind::Author => NatSpecKind::Author,
            NatSpecKind::Notice => NatSpecKind::Notice,
            NatSpecKind::Dev => NatSpecKind::Dev,
            NatSpecKind::Param { name } => NatSpecKind::Param { name: name.clone() },
            NatSpecKind::Return { name } => match name {
                Some(n) => NatSpecKind::Return { name: Some(n.clone()) },
                None => NatSpecKind::Return { name: None },
            },
            NatSpecKind::Inheritdoc { parent } => NatSpecKind::Inheritdoc { parent: parent.clone() },
            NatSpecKind::Custom { tag } => NatSpecKind::Custom { tag: tag.clone() },
        }
    }
}

impl DeepView for NatSpecItem {
    type V = NatSpecItemView;

    open spec fn deep_view(&self) -> NatSpecItemView {
        NatSpecItemView { kind: self.kind.deep_view(), comment: self.comment@ }
    }
}

/// The items of one or more NatSpec comments, in source order.
#[derive(Clone, Debug, PartialEq, Eq)]
pub struct NatSpec {
    pub items: Vec<NatSpecItem>,
}

impl Default for NatSpec {
    /// No items.
    fn default() -> (r: NatSpec)
        ensures
            r.items@.len() == 0,
    {
        NatSpec { items: Vec::new() }
    }
}

impl NatSpec {

    /// Moves the items of `other` to the end of `self`, leaving `other` empty.
    pub fn append(&mut self, other: &mut NatSpec)
        ensures
            final(self).items.deep_view() == old(self).items.deep_view() + old(other).items.deep_view(),
            final(other).items@.len() == 0,
    {
        self.items.append(&mut other.items);
    }
}

pub open spec fn item(kind: NatSpecKindView, comment: Seq<char>) -> NatSpecItemView {
    NatSpecItemView { kind, comment }
}

pub open spec fn missing_name_message() -> Seq<char> {
    "missing name after NatSpec tag"@
}

pub open spec fn unknown_tag_message() -> Seq<char> {
    "unknown NatSpec tag"@
}

pub open spec fn not_natspec_message() -> Seq<char> {
    "not a NatSpec comment"@
}

/// The item of a line whose tag starts at `a` (right after the `@`) and that
/// ends at `e`.
///
/// The tag runs up to the first whitespace, and the item's comment is the
/// rest of the line. `@param` and `@inheritdoc` are followed by a name, which
/// the comment does not include. `@custom:name` keeps the part after the
/// colon.
pub open spec fn tagged_item(s: Seq<char>, a: int, e: int) -> Result<NatSpecItemView, Seq<char>> {
    let w = word_end(s, a, e);
    let tag = s.subrange(a, w);
    let r = skip_space_to(s, w, e);
    let rest = s.subrange(r, e);
    if tag == "title"@ {
        Ok(item(NatSpecKindView::Title, rest))
    } else if tag == "author"@ {
        Ok(item(NatSpecKindView::Author, rest))
    } else if tag == "notice"@ {
        Ok(item(NatSpecKindView::Notice, rest))
    } else if tag == "dev"@ {
        Ok(item(NatSpecKindView::Dev, rest))
    } else if tag == "return"@ {
        Ok(item(NatSpecKindView::Return { name: None }, rest))
    } else if tag == "param"@ || tag == "inheritdoc"@ {
        let nw = word_end(s, r, e);
        let name = s.subrange(r, nw);
        let after = s.subrange(skip_space_to(s, nw, e), e);
        if nw == r {
            Err(missing_name_message())
        } else if tag == "param"@ {
            Ok(item(NatSpecKindView::Param { name }, after))
        } else {
            Ok(item(NatSpecKindView::Inheritdoc { parent: name }, after))
        }
    } else if w - a > 7 && s.subrange(a, a + 7) == "custom:"@ {
        Ok(item(NatSpecKindView::Custom { tag: s.subrange(a + 7, w) }, rest))
    } else {
        Err(unknown_tag_message())
    }
}

/// The item, if any, of the line of a comment from `a` up to `e`.
///
/// Surrounding whitespace is ignored, and so is a leading `*` in a
/// multi-line comment. An empty line has no item; a line that starts with `@`
/// is tagged; any other line is a notice.
pub open spec fn line_item(s: Seq<char>, a: int, e: int, multiline: bool) -> Result<
    Option<NatSpecItemView>,
    Seq<char>,
> {
    let a1 = skip_space_to(s, a, e);
    let e1 = skip_space_back(s, a1, e);
    let a2 = if multiline && a1 < e1 && s[a1] == '*' {
        skip_space_to(s, a1 + 1, e1)
    } else {
        a1
    };
    if a2 >= e1 {
        Ok(None)
    } else if s[a2] == '@' {
        match tagged_item(s, a2 + 1, e1) {
            Ok(i) => Ok(Some(i)),
            Err(m) => Err(m),
        }
    } else {
        Ok(Some(item(NatSpecKindView::Notice, s.subrange(a2, e1))))
    }
}

/// Law: a line whose text, between whitespace, does not start with `@` (nor
/// with `*`) is a notice carrying that text, in `/** */` comments as in
/// `///` comments.
pub proof fn lemma_untagged_line_is_notice(s: Seq<char>, a: int, b: int, c: int, e: int, multiline: bool)
    requires
        0 <= a <= b < c <= e <= s.len(),
        forall|k: int| a <= k < b ==> is_space(#[trigger] s[k]),
        forall|k: int| c <= k < e ==> is_space(#[trigger] s[k]),
        !is_space(s[b]),
        !is_space(s[c - 1]),
        s[b] != '@',
        s[b] != '*',
    ensures
        line_item(s, a, e, multiline) == Ok::<_, Seq<char>>(
            Some(item(NatSpecKindView::Notice, s.subrange(b, c))),
        ),
{
    lemma_skip_space_to_at(s, a, b, e);
    lemma_skip_space_back_at(s, b, c, e);
}

proof fn lemma_tag_names_differ()
    ensures
        "title"@ != "author"@,
        "title"@ != "notice"@,
        "title"@ != "dev"@,
        "title"@ != "return"@,
        "title"@ != "param"@,
        "title"@ != "inheritdoc"@,
        "author"@ != "notice"@,
        "author"@ != "dev"@,
        "author"@ != "return"@,
        "author"@ != "param"@,
        "author"@ != "inheritdoc"@,
        "notice"@ != "dev"@,
        "notice"@ != "return"@,
        "notice"@ != "param"@,
        "notice"@ != "inheritdoc"@,
        "dev"@ != "return"@,
        "dev"@ != "param"@,
        "dev"@ != "inheritdoc"@,
        "return"@ != "param"@,
        "return"@ != "inheritdoc"@,
        "param"@ != "inheritdoc"@,
{
    reveal_strlit("title");
    reveal_strlit("author");
    reveal_strlit("notice");
    reveal_strlit("dev");
    reveal_strlit("return");
    reveal_strlit("param");
    reveal_strlit("inheritdoc");
    assert("title"@[0] != "author"@[0]);
    assert("title"@[0] != "notice"@[0]);
    assert("title"@[0] != "dev"@[0]);
    assert("title"@[0] != "return"@[0]);
    assert("title"@[0] != "param"@[0]);
    assert("title"@[0] != "inheritdoc"@[0]);
    assert("author"@[0] != "notice"@[0]);
    assert("author"@[0] != "dev"@[0]);
    assert("author"@[0] != "return"@[0]);
    assert("author"@[0] != "param"@[0]);
    assert("author"@[0] != "inheritdoc"@[0]);
    assert("notice"@[0] != "dev"@[0]);
    assert("notice"@[0] != "return"@[0]);
    assert("notice"@[0] != "param"@[0]);
    assert("notice"@[0] != "inheritdoc"@[0]);
    assert("dev"@[0] != "return"@[0]);
    assert("dev"@[0] != "param"@[0]);
    assert("dev"@[0] != "inheritdoc"@[0]);
    assert("return"@[0] != "param"@[0]);
    assert("return"@[0] != "inheritdoc"@[0]);
    assert("param"@[0] != "inheritdoc"@[0]);
}

/// Law: a line made of whitespace, `@` and a tag, whitespace, a text and
/// whitespace is an item of that tag carrying the text: `@title`,
/// `@author`, `@notice`, `@dev` and `@return` (unnamed until return values
/// name it).
pub proof fn lemma_tagged_line(
    s: Seq<char>,
    a: int,
    b: int,
    w: int,
    r: int,
    c: int,
    e: int,
    multiline: bool,
)
    requires
        0 <= a <= b < w < r < c <= e <= s.len(),
        forall|k: int| a <= k < b ==> is_space(#[trigger] s[k]),
        s[b] == '@',
        forall|k: int| b < k < w ==> !is_space(#[trigger] s[k]),
        forall|k: int| w <= k < r ==> is_space(#[trigger] s[k]),
        !is_space(s[r]),
        !is_space(s[c - 1]),
        forall|k: int| c <= k < e ==> is_space(#[trigger] s[k]),
    ensures
        ({
            let tag = s.subrange(b + 1, w);
            let text = s.subrange(r, c);
            let res = line_item(s, a, e, multiline);
            &&& tag == "title"@ ==> res == Ok::<_, Seq<char>>(Some(item(NatSpecKindView::Title, text)))
            &&& tag == "author"@ ==> res == Ok::<_, Seq<char>>(Some(item(NatSpecKindView::Author, text)))
            &&& tag == "notice"@ ==> res == Ok::<_, Seq<char>>(Some(item(NatSpecKindView::Notice, text)))
            &&& tag == "dev"@ ==> res == Ok::<_, Seq<char>>(Some(item(NatSpecKindView::Dev, text)))
            &&& tag == "return"@ ==> res == Ok::<_, Seq<char>>(
                Some(item(NatSpecKindView::Return { name: None }, text)),
            )
        }),
{
    lemma_tag_names_differ();
    assert(!is_space('@'));
    lemma_skip_space_to_at(s, a, b, e);
    lemma_skip_space_back_at(s, b, c, e);
    lemma_word_end_at(s, b + 1, w, c);
    lemma_skip_space_to_at(s, w, r, c);
}

/// Law: a line made of whitespace, `@param`, whitespace, a name, whitespace,
/// a text and whitespace documents the parameter of that name with the text.
pub proof fn lemma_param_line(
    s: Seq<char>,
    a: int,
    b: int,
    r: int,
    nw: int,
    r2: int,
    c: int,
    e: int,
    multiline: bool,
)
    requires
        0 <= a <= b && b + 6 < r < nw < r2 < c <= e <= s.len(),
        forall|k: int| a <= k < b ==> is_space(#[trigger] s[k]),
        s[b] == '@',
        s.subrange(b + 1, b + 6) == "param"@,
        forall|k: int| b + 6 <= k < r ==> is_space(#[trigger] s[k]),
        forall|k: int| r <= k < nw ==> !is_space(#[trigger] s[k]),
        forall|k: int| nw <= k < r2 ==> is_space(#[trigger] s[k]),
        !is_space(s[r2]),
        !is_space(s[c - 1]),
        forall|k: int| c <= k < e ==> is_space(#[trigger] s[k]),
    ensures
        line_item(s, a, e, multiline) == Ok::<_, Seq<char>>(
            Some(item(NatSpecKindView::Param { name: s.subrange(r, nw) }, s.subrange(r2, c))),
        ),
{
    lemma_tag_names_differ();
    reveal_strlit("param");
    assert(!is_space('@'));
    assert forall|k: int| b < k < b + 6 implies !is_space(#[trigger] s[k]) by {
        assert(s[k] == s.subrange(b + 1, b + 6)[k - b - 1]);
    }
    lemma_skip_space_to_at(s, a, b, e);
    lemma_skip_space_back_at(s, b, c, e);
    lemma_word_end_at(s, b + 1, b + 6, c);
    lemma_skip_space_to_at(s, b + 6, r, c);
    lemma_word_end_at(s, r, nw, c);
    lemma_skip_space_to_at(s, nw, r2, c);
}

/// Law: in a `/** */` comment, a line made of whitespace, a `*`, whitespace
/// and a text that does not start with `@` is a notice carrying that text.
pub proof fn lemma_starred_line_is_notice(s: Seq<char>, a: int, st: int, b: int, c: int, e: int)
    requires
        0 <= a <= st < b < c <= e <= s.len(),
        forall|k: int| a <= k < st ==> is_space(#[trigger] s[k]),
        s[st] == '*',
        forall|k: int| st < k < b ==> is_space(#[trigger] s[k]),
        forall|k: int| c <= k < e ==> is_space(#[trigger] s[k]),
        !is_space(s[b]),
        !is_space(s[c - 1]),
        s[b] != '@',
    ensures
        line_item(s, a, e, true) == Ok::<_, Seq<char>>(
            Some(item(NatSpecKindView::Notice, s.subrange(b, c))),
        ),
{
    assert(!is_space('*'));
    lemma_skip_space_to_at(s, a, st, e);
    lemma_skip_space_back_at(s, st, c, e);
    lemma_skip_space_to_at(s, st + 1, b, c);
}

pub open spec fn option_seq<A>(o: Option<A>) -> Seq<A> {
    match o {
        Some(a) => seq![a],
        None => Seq::empty(),
    }
}

/// The items of the lines from `i` up to `b`, or the error of the first line
/// that does not parse.
pub open spec fn items_from(s: Seq<char>, i: int, b: int, multiline: bool) -> Result<
    Seq<NatSpecItemView>,
    Seq<char>,
>
    decreases b - i,
{
    let e = find_char(s, '\n', i, b);
    match line_item(s, i, e, multiline) {
        Err(m) => Err(m),
        Ok(o) => if e >= b || e < i {
            Ok(option_seq(o))
        } else {
            match items_from(s, e + 1, b, multiline) {
                Err(m) => Err(m),
                Ok(rest) => Ok(option_seq(o) + rest),
            }
        },
    }
}

/// The items of a NatSpec comment: a `///` line or a `/** ... */` block.
pub open spec fn comment_items(s: Seq<char>) -> Result<Seq<NatSpecItemView>, Seq<char>> {
    if s.len() >= 3 && s.subrange(0, 3) == "///"@ {
        items_from(s, 3, s.len() as int, false)
    } else if s.len() >= 5 && s.subrange(0, 3) == "/**"@ && s.subrange(s.len() - 2, s.len() as int)
        == "*/"@ {
        items_from(s, 3, s.len() - 2, true)
    } else {
        Err(not_natspec_message())
    }
}

fn tagged_item_exec(s: &str, a: usize, e: usize) -> (r: Result<NatSpecItem, String>)
    requires
        a <= e <= s@.len(),
    ensures
        match r {
            Ok(i) => tagged_item(s@, a as int, e as int) == Ok::<_, Seq<char>>(i.deep_view()),
            Err(m) => tagged_item(s@, a as int, e as int) == Err::<NatSpecItemView, _>(m@),
        },
{
    let w = word_end_exec(s, a, e);
    let tag = substring(s, a, w);
    let r = skip_space_exec(s, w, e);
    let rest = substring(s, r, e);
    if tag == "title".to_owned() {
        Ok(NatSpecItem { kind: NatSpecKind::Title, comment: rest })
    } else if tag == "author".to_owned() {
        Ok(NatSpecItem { kind: NatSpecKind::Author, comment: rest })
    } else if tag == "notice".to_owned() {
        Ok(NatSpecItem { kind: NatSpecKind::Notice, comment: rest })
    } else if tag == "dev".to_owned() {
        Ok(NatSpecItem { kind: NatSpecKind::Dev, comment: rest })
    } else if tag == "return".to_owned() {
        Ok(NatSpecItem { kind: NatSpecKind::Return { name: None }, comment: rest })
    } else if tag == "param".to_owned() || tag == "inheritdoc".to_owned() {
        let nw = word_end_exec(s, r, e);
        let name = substring(s, r, nw);
        let after_start = skip_space_exec(s, nw, e);
        let after = substring(s, after_start, e);
        if nw == r {
            Err("missing name after NatSpec tag".to_owned())
        } else if tag == "param".to_owned() {
            Ok(NatSpecItem { kind: NatSpecKind::Param { name }, comment: after })
        } else {
            Ok(NatSpecItem { kind: NatSpecKind::Inheritdoc { parent: name }, comment: after })
        }
    } else if w - a > 7 && substring(s, a, a + 7) == "custom:".to_owned() {
        Ok(NatSpecItem { kind: NatSpecKind::Custom { tag: substring(s, a + 7, w) }, comment: rest })
    } else {
        Err("unknown NatSpec tag".to_owned())
    }
}

fn line_item_exec(s: &str, a: usize, e: usize, multiline: bool) -> (r: Result<
    Option<NatSpecItem>,
    String,
>)
    requires
        a <= e <= s@.len(),
    ensures
        match r {
            Ok(Some(i)) => line_item(s@, a as int, e as int, multiline) == Ok::<_, Seq<char>>(
                Some(i.deep_view()),
            ),
            Ok(None) => line_item(s@, a as int, e as int, multiline) == Ok::<_, Seq<char>>(
                None::<NatSpecItemView>,
            ),
            Err(m) => line_item(s@, a as int, e as int, multiline) == Err::<
                Option<NatSpecItemView>,
                _,
            >(m@),
        },
{
    let a1 = skip_space_exec(s, a, e);
    let e1 = skip_space_back_exec(s, a1, e);
    let a2 = if multiline && a1 < e1 && s.get_char(a1) == '*' {
        skip_space_exec(s, a1 + 1, e1)
    } else {
        a1
    };
    if a2 >= e1 {
        Ok(None)
    } else if s.get_char(a2) == '@' {
        match tagged_item_exec(s, a2 + 1, e1) {
            Ok(i) => Ok(Some(i)),
            Err(m) => Err(m),
        }
    } else {
        Ok(Some(NatSpecItem { kind: NatSpecKind::Notice, comment: substring(s, a2, e1) }))
    }
}

pub open spec fn prepend_items(
    done: Seq<NatSpecItemView>,
    r: Result<Seq<NatSpecItemView>, Seq<char>>,
) -> Result<Seq<NatSpecItemView>, Seq<char>> {
    match r {
        Ok(rest) => Ok(done + rest),
        Err(m) => Err(m),
    }
}

fn items_from_exec(s: &str, b0: usize, b: usize, multiline: bool) -> (r: Result<NatSpec, String>)
    requires
        b0 <= b <= s@.len(),
    ensures
        match r {
            Ok(n) => items_from(s@, b0 as int, b as int, multiline) == Ok::<_, Seq<char>>(
                n.items.deep_view(),
            ),
            Err(m) => items_from(s@, b0 as int, b as int, multiline) == Err::<
                Seq<NatSpecItemView>,
                _,
            >(m@),
        },
{
    let mut items: Vec<NatSpecItem> = Vec::new();
    let mut i = b0;
    loop
        invariant
            b0 <= i <= b <= s@.len(),
            items_from(s@, b0 as int, b as int, multiline) == prepend_items(
                items.deep_view(),
                items_from(s@, i as int, b as int, multiline),
            ),
        decreases b - i,
    {
        let e = find_char_exec(s, '\n', i, b);
        let ghost before = items.deep_view();
        let ghost line = line_item(s@, i as int, e as int, multiline);
        proof {
            lemma_find_char(s@, '\n', i as int, b as int);
        }
        match line_item_exec(s, i, e, multiline) {
            Err(m) => {
                return Err(m);
            },
            Ok(o) => {
                match o {
                    Some(it) => {
                        items.push(it);
                    },
                    None => {},
                }
            },
        }
        assert(items.deep_view() =~= before + option_seq(line->Ok_0));
        if e >= b {
            return Ok(NatSpec { items });
        }
        proof {
            let opt = option_seq(line->Ok_0);
            match items_from(s@, e + 1, b as int, multiline) {
                Ok(rest) => {
                    assert(before + (opt + rest) =~= (before + opt) + rest);
                },
                Err(_) => {},
            }
        }
        i = e + 1;
    }
}

/// Parses a NatSpec comment into its items.
pub fn parse_comment(s: &str) -> (r: Result<NatSpec, String>)
    ensures
        match r {
            Ok(n) => comment_items(s@) == Ok::<_, Seq<char>>(n.items.deep_view()),
            Err(m) => comment_items(s@) == Err::<Seq<NatSpecItemView>, _>(m@),
        },
{
    let n = s.unicode_len();
    if n >= 3 && substring(s, 0, 3) == "///".to_owned() {
        items_from_exec(s, 3, n, false)
    } else if n >= 5 && substring(s, 0, 3) == "/**".to_owned() && substring(s, n - 2, n)
        == "*/".to_owned() {
        items_from_exec(s, 3, n - 2, true)
    } else {
        Err("not a NatSpec comment".to_owned())
    }
}

/// Whether one of the return values is named `word`.
pub open spec fn names_return(return_values: Seq<IdentifierView>, word: Seq<char>) -> bool {
    exists|k: int| 0 <= k < return_values.len() && #[trigger] return_values[k].name == Some(word)
}

/// A `@return` item without a name takes the first word of its comment as
/// its name when a return value has that name; the rest of the comment stays.
pub open spec fn with_return_name(it: NatSpecItemView, return_values: Seq<IdentifierView>) -> NatSpecItemView {
    match it.kind {
        NatSpecKindView::Return { name: None } => {
            let c = it.comment;
            let w = word_end(c, 0, c.len() as int);
            let word = c.subrange(0, w);
            if names_return(return_values, word) {
                item(
                    NatSpecKindView::Return { name: Some(word) },
                    c.subrange(skip_space_to(c, w, c.len() as int), c.len() as int),
                )
            } else {
                it
            }
        },
        _ => it,
    }
}

/// Each item with the name of the return value it documents.
pub open spec fn with_return_names(items: Seq<NatSpecItemView>, return_values: Seq<IdentifierView>) -> Seq<
    NatSpecItemView,
> {
    items.map_values(|it: NatSpecItemView| with_return_name(it, return_values))
}

/// Whether one of the return values is named `word`.
fn is_return_name(return_values: &[Identifier], word: &String) -> (r: bool)
    ensures
        r == names_return(ids_view(return_values@), word@),
{
    let ghost rv = ids_view(return_values@);
    let mut k: usize = 0;
    while k < return_values.len()
        invariant
            k <= return_values@.len(),
            rv == ids_view(return_values@),
            forall|j: int| 0 <= j < k ==> rv[j].name != Some(word@),
        decreases return_values.len() - k,
    {
        match &return_values[k].name {
            Some(n) => {
                if *n == *word {
                    assert(rv[k as int].name == Some(word@));
                    return true;
                }
            },
            None => {},
        }
        k = k + 1;
    }
    assert forall|j: int| 0 <= j < rv.len() implies #[trigger] rv[j].name != Some(word@) by {}
    false
}

/// Law: naming the `@return` items keeps the number and order of the
/// items, and changes none but unnamed `@return` items.
pub proof fn lemma_return_names_touch_only_returns(
    items: Seq<NatSpecItemView>,
    return_values: Seq<IdentifierView>,
)
    ensures
        with_return_names(items, return_values).len() == items.len(),
        forall|k: int|
            0 <= k < items.len() && !((#[trigger] items[k]).kind matches NatSpecKindView::Return {
                name: None,
            }) ==> with_return_names(items, return_values)[k] == items[k],
{
}

/// Law: an unnamed `@return` item whose comment is a word, whitespace and a
/// text is named after that word when any of the return values, at any
/// position, has that name; its comment is then the text.
pub proof fn lemma_return_named_after_word(
    items: Seq<NatSpecItemView>,
    return_values: Seq<IdentifierView>,
    k: int,
    j: int,
    word: Seq<char>,
    sp: Seq<char>,
    text: Seq<char>,
)
    requires
        0 <= k < items.len(),
        0 <= j < return_values.len(),
        items[k] == item(NatSpecKindView::Return { name: None }, word + sp + text),
        return_values[j].name == Some(word),
        word.len() > 0,
        forall|i: int| 0 <= i < word.len() ==> !is_space(#[trigger] word[i]),
        forall|i: int| 0 <= i < sp.len() ==> is_space(#[trigger] sp[i]),
        sp.len() > 0 || text.len() == 0,
        text.len() == 0 || !is_space(text[0]),
    ensures
        with_return_names(items, return_values)[k] == item(
            NatSpecKindView::Return { name: Some(word) },
            text,
        ),
{
    let c = word + sp + text;
    let w = word.len() as int;
    let n = c.len() as int;
    assert forall|i: int| 0 <= i < w implies !is_space(#[trigger] c[i]) by {
        assert(c[i] == word[i]);
    }
    if sp.len() > 0 {
        assert(c[w] == sp[0]);
    }
    lemma_word_end_at(c, 0, w, n);
    let t = w + sp.len();
    assert forall|i: int| w <= i < t implies is_space(#[trigger] c[i]) by {
        assert(c[i] == sp[i - w]);
    }
    if text.len() > 0 {
        assert(c[t] == text[0]);
    }
    lemma_skip_space_to_at(c, w, t, n);
    assert(c.subrange(0, w) =~= word);
    assert(c.subrange(t, n) =~= text);
    assert(names_return(return_values, word));
}

impl NatSpecItem {
    /// The item with the name of the return value it documents, if it is an
    /// unnamed `@return` whose first word names one.
    pub fn with_return_name(&self, return_values: &[Identifier]) -> (r: NatSpecItem)
        ensures
            r.deep_view() == with_return_name(
                self.deep_view(),
                ids_view(return_values@),
            ),
    {
        match &self.kind {
            NatSpecKind::Return { name: None } => {
                let c = self.comment.as_str();
                let n = c.unicode_len();
                let w = word_end_exec(c, 0, n);
                let word = substring(c, 0, w);
                if is_return_name(return_values, &word) {
                    let rest_start = skip_space_exec(c, w, n);
                    NatSpecItem {
                        kind: NatSpecKind::Return { name: Some(word) },
                        comment: substring(c, rest_start, n),
                    }
                } else {
                    NatSpecItem { kind: self.kind.duplicate(), comment: self.comment.clone() }
                }
            },
            _ => NatSpecItem { kind: self.kind.duplicate(), comment: self.comment.clone() },
        }
    }
}

impl NatSpec {
    /// Names each unnamed `@return` item after the return value whose name is
    /// the first word of its comment.
    pub fn populate_returns(self, return_values: &[Identifier]) -> (r: NatSpec)
        ensures
            r.items.deep_view() == with_return_names(self.items.deep_view(), ids_view(return_values@)),
    {
        let ghost rv = ids_view(return_values@);
        let mut out: Vec<NatSpecItem> = Vec::new();
        let mut k: usize = 0;
        while k < self.items.len()
            invariant
                k <= self.items@.len(),
                rv == ids_view(return_values@),
                out.deep_view() =~= with_return_names(self.items.deep_view().subrange(0, k as int), rv),
            decreases self.items.len() - k,
        {
            let ghost all = self.items.deep_view();
            let it = self.items[k].with_return_name(return_values);
            out.push(it);
            assert(with_return_names(all.subrange(0, k + 1), rv) =~= with_return_names(
                all.subrange(0, k as int),
                rv,
            ).push(with_return_name(all[k as int], rv)));
            k = k + 1;
        }
        assert(self.items.deep_view().subrange(0, self.items@.len() as int) =~= self.items.deep_view());
        NatSpec { items: out }
    }
}

} // verus!
