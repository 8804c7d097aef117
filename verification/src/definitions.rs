//! The source items that the parser finds, and the errors it reports.
use vstd::prelude::*;
use crate::cst::TextRange;
use crate::natspec::{NatSpec, NatSpecItem, NatSpecItemView, NatSpecKind};

verus! {

/// An identifier of a source item (a parameter, a member, a return value).
///
/// Unnamed parameters have no name; their span is that of the whole parameter.
#[derive(Clone, Debug, PartialEq, Eq)]
pub struct Identifier {
    pub name: Option<String>,
    pub span: TextRange,
}

pub struct IdentifierView {
    pub name: Option<Seq<char>>,
    pub span: TextRange,
}

impl DeepView for Identifier {
    type V = IdentifierView;

    open spec fn deep_view(&self) -> IdentifierView {
        IdentifierView { name: self.name.deep_view(), span: self.span }
    }
}

/// The views of a sequence of identifiers.
pub open spec fn ids_view(v: Seq<Identifier>) -> Seq<IdentifierView> {
    v.map_values(|i: Identifier| i.deep_view())
}

/// The contract, interface or library that holds a source item.
#[derive(Clone, Debug, PartialEq, Eq)]
pub enum Parent {
    Contract(String),
    Interface(String),
    Library(String),
}

pub enum ParentView {
    Contract(Seq<char>),
    Interface(Seq<char>),
    Library(Seq<char>),
}

impl DeepView for Parent {
    type V = ParentView;

    open spec fn deep_view(&self) -> ParentView {
        match self {
            Parent::Contract(s) => ParentView::Contract(s@),
            Parent::Interface(s) => ParentView::Interface(s@),
            Parent::Library(s) => ParentView::Library(s@),
        }
    }
}

/// The visibility of a function, modifier or state variable.
#[derive(Clone, Copy, Debug, PartialEq, Eq)]
pub enum Visibility {
    External,
    Internal,
    Private,
    Public,
}

/// The attributes of a function, modifier or state variable.
#[derive(Clone, Copy, Debug, PartialEq, Eq)]
pub struct Attributes {
    pub visibility: Visibility,
    pub override_: bool,
}

impl Default for Attributes {
    /// Internal visibility and no `override`.
    fn default() -> (r: Attributes)
        ensures
            r == (Attributes { visibility: Visibility::Internal, override_: false }),
    {
        Attributes { visibility: Visibility::Internal, override_: false }
    }
}

/// Errors met while parsing a source file.
#[derive(Clone, Debug, PartialEq, Eq)]
pub enum Error {
    /// The syntax tree did not have the expected shape.
    UnknownError,
    /// The source did not parse; the message of the first parse error.
    ParsingError(String),
    /// A NatSpec comment did not parse.
    NatspecParsingError { parent: Option<Parent>, span: TextRange, message: String },
    /// A query over the syntax tree did not compile.
    InvalidQuery(String),
    /// The parser does not support the requested Solidity version.
    UnsupportedVersion,
}

pub enum ErrorView {
    UnknownError,
    ParsingError(Seq<char>),
    NatspecParsingError { parent: Option<ParentView>, span: TextRange, message: Seq<char> },
    InvalidQuery(Seq<char>),
    UnsupportedVersion,
}

impl DeepView for Error {
    type V = ErrorView;

    open spec fn deep_view(&self) -> ErrorView {
        match self {
            Error::UnknownError => ErrorView::UnknownError,
            Error::ParsingError(s) => ErrorView::ParsingError(s@),
            Error::NatspecParsingError { parent, span, message } => ErrorView::NatspecParsingError {
                parent: parent.deep_view(),
                span: *span,
                message: message@,
            },
            Error::InvalidQuery(s) => ErrorView::InvalidQuery(s@),
            Error::UnsupportedVersion => ErrorView::UnsupportedVersion,
        }
    }
}

#[derive(Clone, Debug, PartialEq, Eq)]
pub struct ConstructorDefinition {
    pub parent: Option<Parent>,
    pub span: TextRange,
    pub params: Vec<Identifier>,
    pub natspec: Option<NatSpec>,
}

#[derive(Clone, Debug, PartialEq, Eq)]
pub struct EnumDefinition {
    pub parent: Option<Parent>,
    pub name: String,
    pub span: TextRange,
    pub members: Vec<Identifier>,
    pub natspec: Option<NatSpec>,
}

#[derive(Clone, Debug, PartialEq, Eq)]
pub struct ErrorDefinition {
    pub parent: Option<Parent>,
    pub name: String,
    pub span: TextRange,
    pub params: Vec<Identifier>,
    pub natspec: Option<NatSpec>,
}

#[derive(Clone, Debug, PartialEq, Eq)]
pub struct EventDefinition {
    pub parent: Option<Parent>,
    pub name: String,
    pub span: TextRange,
    pub params: Vec<Identifier>,
    pub natspec: Option<NatSpec>,
}

#[derive(Clone, Debug, PartialEq, Eq)]
pub struct FunctionDefinition {
    pub parent: Option<Parent>,
    pub name: String,
    pub span: TextRange,
    pub params: Vec<Identifier>,
    pub returns: Vec<Identifier>,
    pub natspec: Option<NatSpec>,
    pub attributes: Attributes,
}

#[derive(Clone, Debug, PartialEq, Eq)]
pub struct ModifierDefinition {
    pub parent: Option<Parent>,
    pub name: String,
    pub span: TextRange,
    pub params: Vec<Identifier>,
    pub natspec: Option<NatSpec>,
    pub attributes: Attributes,
}

#[derive(Clone, Debug, PartialEq, Eq)]
pub struct StructDefinition {
    pub parent: Option<Parent>,
    pub name: String,
    pub span: TextRange,
    pub members: Vec<Identifier>,
    pub natspec: Option<NatSpec>,
}

#[derive(Clone, Debug, PartialEq, Eq)]
pub struct VariableDeclaration {
    pub parent: Option<Parent>,
    pub name: String,
    pub span: TextRange,
    pub natspec: Option<NatSpec>,
    pub attributes: Attributes,
}

/// A source item found in a file.
#[derive(Clone, Debug, PartialEq, Eq)]
pub enum Definition {
    Constructor(ConstructorDefinition),
    Enumeration(EnumDefinition),
    Error(ErrorDefinition),
    Event(EventDefinition),
    Function(FunctionDefinition),
    Modifier(ModifierDefinition),
    Struct(StructDefinition),
    Variable(VariableDeclaration),
    /// An item whose extraction failed.
    NatspecParsingError(Error),
}

/// The abstract content of a [`Definition`]: which kind of item it is, and
/// its fields (those that the kind does not have are empty).
pub struct DefinitionView {
    pub kind: DefinitionKind,
    pub parent: Option<ParentView>,
    pub name: Seq<char>,
    pub span: TextRange,
    pub params: Seq<IdentifierView>,
    pub returns: Seq<IdentifierView>,
    pub members: Seq<IdentifierView>,
    pub natspec: Option<Seq<NatSpecItemView>>,
    pub attributes: Attributes,
    pub error: Option<ErrorView>,
}

pub enum DefinitionKind {
    Constructor,
    Enumeration,
    Error,
    Event,
    Function,
    Modifier,
    Struct,
    Variable,
    Failure,
}

pub open spec fn natspec_view(n: Option<NatSpec>) -> Option<Seq<NatSpecItemView>> {
    match n {
        Some(n) => Some(n.items.deep_view()),
        None => None,
    }
}

pub open spec fn no_range() -> TextRange {
    arbitrary()
}

/// A view with every field empty; each kind fills in its own.
pub open spec fn empty_view(kind: DefinitionKind) -> DefinitionView {
    DefinitionView {
        kind,
        parent: None,
        name: Seq::empty(),
        span: no_range(),
        params: Seq::empty(),
        returns: Seq::empty(),
        members: Seq::empty(),
        natspec: None,
        attributes: Attributes { visibility: Visibility::Internal, override_: false },
        error: None,
    }
}

impl DeepView for Definition {
    type V = DefinitionView;

    open spec fn deep_view(&self) -> DefinitionView {
        match self {
            Definition::Constructor(d) => DefinitionView {
                parent: d.parent.deep_view(),
                span: d.span,
                params: d.params.deep_view(),
                natspec: natspec_view(d.natspec),
                ..empty_view(DefinitionKind::Constructor)
            },
            Definition::Enumeration(d) => DefinitionView {
                parent: d.parent.deep_view(),
                name: d.name@,
                span: d.span,
                members: d.members.deep_view(),
                natspec: natspec_view(d.natspec),
                ..empty_view(DefinitionKind::Enumeration)
            },
            Definition::Error(d) => DefinitionView {
                parent: d.parent.deep_view(),
                name: d.name@,
                span: d.span,
                params: d.params.deep_view(),
                natspec: natspec_view(d.natspec),
                ..empty_view(DefinitionKind::Error)
            },
            Definition::Event(d) => DefinitionView {
                parent: d.parent.deep_view(),
                name: d.name@,
                span: d.span,
                params: d.params.deep_view(),
                natspec: natspec_view(d.natspec),
                ..empty_view(DefinitionKind::Event)
            },
            Definition::Function(d) => DefinitionView {
                parent: d.parent.deep_view(),
                name: d.name@,
                span: d.span,
                params: d.params.deep_view(),
                returns: d.returns.deep_view(),
                natspec: natspec_view(d.natspec),
                attributes: d.attributes,
                ..empty_view(DefinitionKind::Function)
            },
            Definition::Modifier(d) => DefinitionView {
                parent: d.parent.deep_view(),
                name: d.name@,
                span: d.span,
                params: d.params.deep_view(),
                natspec: natspec_view(d.natspec),
                attributes: d.attributes,
                ..empty_view(DefinitionKind::Modifier)
            },
            Definition::Struct(d) => DefinitionView {
                parent: d.parent.deep_view(),
                name: d.name@,
                span: d.span,
                members: d.members.deep_view(),
                natspec: natspec_view(d.natspec),
                ..empty_view(DefinitionKind::Struct)
            },
            Definition::Variable(d) => DefinitionView {
                parent: d.parent.deep_view(),
                name: d.name@,
                span: d.span,
                natspec: natspec_view(d.natspec),
                attributes: d.attributes,
                ..empty_view(DefinitionKind::Variable)
            },
            Definition::NatspecParsingError(e) => DefinitionView {
                error: Some(e.deep_view()),
                ..empty_view(DefinitionKind::Failure)
            },
        }
    }
}

pub fn text_range_eq(a: &TextRange, b: &TextRange) -> (r: bool)
    ensures
        r == (*a == *b),
{
    a.start.utf8 == b.start.utf8 && a.start.utf16 == b.start.utf16 && a.start.line == b.start.line
        && a.start.column == b.start.column && a.end.utf8 == b.end.utf8 && a.end.utf16
        == b.end.utf16 && a.end.line == b.end.line && a.end.column == b.end.column
}

fn option_string_eq(a: &Option<String>, b: &Option<String>) -> (r: bool)
    ensures
        r == (a.deep_view() == b.deep_view()),
{
    match (a, b) {
        (Some(x), Some(y)) => *x == *y,
        (None, None) => true,
        _ => false,
    }
}

fn parent_eq(a: &Option<Parent>, b: &Option<Parent>) -> (r: bool)
    ensures
        r == (a.deep_view() == b.deep_view()),
{
    match (a, b) {
        (Some(Parent::Contract(x)), Some(Parent::Contract(y))) => *x == *y,
        (Some(Parent::Interface(x)), Some(Parent::Interface(y))) => *x == *y,
        (Some(Parent::Library(x)), Some(Parent::Library(y))) => *x == *y,
        (None, None) => true,
        _ => false,
    }
}

fn identifier_eq(a: &Identifier, b: &Identifier) -> (r: bool)
    ensures
        r == (a.deep_view() == b.deep_view()),
{
    option_string_eq(&a.name, &b.name) && text_range_eq(&a.span, &b.span)
}

/// Whether two lists of identifiers are the same.
pub fn identifiers_eq(a: &Vec<Identifier>, b: &Vec<Identifier>) -> (r: bool)
    ensures
        r == (a.deep_view() == b.deep_view()),
{
    if a.len() != b.len() {
        assert(a.deep_view().len() != b.deep_view().len());
        return false;
    }
    let mut k: usize = 0;
    while k < a.len()
        invariant
            a@.len() == b@.len(),
            k <= a@.len(),
            forall|j: int| 0 <= j < k ==> a.deep_view()[j] == b.deep_view()[j],
        decreases a.len() - k,
    {
        if !identifier_eq(&a[k], &b[k]) {
            assert(a.deep_view()[k as int] != b.deep_view()[k as int]);
            return false;
        }
        k = k + 1;
    }
    assert(a.deep_view() =~= b.deep_view());
    true
}

fn natspec_kind_eq(a: &NatSpecKind, b: &NatSpecKind) -> (r: bool)
    ensures
        r == (a.deep_view() == b.deep_view()),
{
    match (a, b) {
        (NatSpecKind::Title, NatSpecKind::Title) => true,
        (NatSpecKind::Author, NatSpecKind::Author) => true,
        (NatSpecKind::Notice, NatSpecKind::Notice) => true,
        (NatSpecKind::Dev, NatSpecKind::Dev) => true,
        (NatSpecKind::Param { name: x }, NatSpecKind::Param { name: y }) => *x == *y,
        (NatSpecKind::Return { name: x }, NatSpecKind::Return { name: y }) => option_string_eq(x, y),
        (NatSpecKind::Inheritdoc { parent: x }, NatSpecKind::Inheritdoc { parent: y }) => *x == *y,
        (NatSpecKind::Custom { tag: x }, NatSpecKind::Custom { tag: y }) => *x == *y,
        _ => false,
    }
}

fn natspec_item_eq(a: &NatSpecItem, b: &NatSpecItem) -> (r: bool)
    ensures
        r == (a.deep_view() == b.deep_view()),
{
    natspec_kind_eq(&a.kind, &b.kind) && a.comment == b.comment
}

/// Whether two optional NatSpec documentations have the same items.
pub fn natspec_eq(a: &Option<NatSpec>, b: &Option<NatSpec>) -> (r: bool)
    ensures
        r == (natspec_view(*a) == natspec_view(*b)),
{
    match (a, b) {
        (Some(x), Some(y)) => {
            if x.items.len() != y.items.len() {
                assert(x.items.deep_view().len() != y.items.deep_view().len());
                return false;
            }
            let mut k: usize = 0;
            while k < x.items.len()
                invariant
                    natspec_view(*a) == Some(x.items.deep_view()),
                    natspec_view(*b) == Some(y.items.deep_view()),
                    x.items@.len() == y.items@.len(),
                    k <= x.items@.len(),
                    forall|j: int| 0 <= j < k ==> x.items.deep_view()[j] == y.items.deep_view()[j],
                decreases x.items.len() - k,
            {
                if !natspec_item_eq(&x.items[k], &y.items[k]) {
                    assert(x.items.deep_view()[k as int] != y.items.deep_view()[k as int]);
                    return false;
                }
                k = k + 1;
            }
            assert(x.items.deep_view() =~= y.items.deep_view());
            true
        },
        (None, None) => true,
        _ => false,
    }
}

fn attributes_eq(a: &Attributes, b: &Attributes) -> (r: bool)
    ensures
        r == (*a == *b),
{
    let same_visibility = match (a.visibility, b.visibility) {
        (Visibility::External, Visibility::External) => true,
        (Visibility::Internal, Visibility::Internal) => true,
        (Visibility::Private, Visibility::Private) => true,
        (Visibility::Public, Visibility::Public) => true,
        _ => false,
    };
    same_visibility && a.override_ == b.override_
}

fn error_eq(a: &Error, b: &Error) -> (r: bool)
    ensures
        r == (a.deep_view() == b.deep_view()),
{
    match (a, b) {
        (Error::UnknownError, Error::UnknownError) => true,
        (Error::ParsingError(x), Error::ParsingError(y)) => *x == *y,
        (
            Error::NatspecParsingError { parent: p1, span: s1, message: m1 },
            Error::NatspecParsingError { parent: p2, span: s2, message: m2 },
        ) => parent_eq(p1, p2) && text_range_eq(s1, s2) && *m1 == *m2,
        (Error::InvalidQuery(x), Error::InvalidQuery(y)) => *x == *y,
        (Error::UnsupportedVersion, Error::UnsupportedVersion) => true,
        _ => false,
    }
}

/// Whether two definitions are the same item with the same content.
pub fn same_definition(a: &Definition, b: &Definition) -> (r: bool)
    ensures
        r == (a.deep_view() == b.deep_view()),
{
    match (a, b) {
        (Definition::Constructor(x), Definition::Constructor(y)) => parent_eq(&x.parent, &y.parent)
            && text_range_eq(&x.span, &y.span) && identifiers_eq(&x.params, &y.params) && natspec_eq(
            &x.natspec,
            &y.natspec,
        ),
        (Definition::Enumeration(x), Definition::Enumeration(y)) => parent_eq(&x.parent, &y.parent)
            && x.name == y.name && text_range_eq(&x.span, &y.span) && identifiers_eq(
            &x.members,
            &y.members,
        ) && natspec_eq(&x.natspec, &y.natspec),
        (Definition::Error(x), Definition::Error(y)) => parent_eq(&x.parent, &y.parent) && x.name
            == y.name && text_range_eq(&x.span, &y.span) && identifiers_eq(&x.params, &y.params)
            && natspec_eq(&x.natspec, &y.natspec),
        (Definition::Event(x), Definition::Event(y)) => parent_eq(&x.parent, &y.parent) && x.name
            == y.name && text_range_eq(&x.span, &y.span) && identifiers_eq(&x.params, &y.params)
            && natspec_eq(&x.natspec, &y.natspec),
        (Definition::Function(x), Definition::Function(y)) => parent_eq(&x.parent, &y.parent)
            && x.name == y.name && text_range_eq(&x.span, &y.span) && identifiers_eq(
            &x.params,
            &y.params,
        ) && identifiers_eq(&x.returns, &y.returns) && natspec_eq(&x.natspec, &y.natspec)
            && attributes_eq(&x.attributes, &y.attributes),
        (Definition::Modifier(x), Definition::Modifier(y)) => parent_eq(&x.parent, &y.parent)
            && x.name == y.name && text_range_eq(&x.span, &y.span) && identifiers_eq(
            &x.params,
            &y.params,
        ) && natspec_eq(&x.natspec, &y.natspec) && attributes_eq(&x.attributes, &y.attributes),
        (Definition::Struct(x), Definition::Struct(y)) => parent_eq(&x.parent, &y.parent) && x.name
            == y.name && text_range_eq(&x.span, &y.span) && identifiers_eq(&x.members, &y.members)
            && natspec_eq(&x.natspec, &y.natspec),
        (Definition::Variable(x), Definition::Variable(y)) => parent_eq(&x.parent, &y.parent)
            && x.name == y.name && text_range_eq(&x.span, &y.span) && natspec_eq(
            &x.natspec,
            &y.natspec,
        ) && attributes_eq(&x.attributes, &y.attributes),
        (Definition::NatspecParsingError(x), Definition::NatspecParsingError(y)) => error_eq(x, y),
        _ => false,
    }
}

} // verus!
