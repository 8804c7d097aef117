use lintspec::definitions::{Attributes, Definition, Error, Parent, Visibility};
use lintspec::natspec::{NatSpecItem, NatSpecKind};
use lintspec::parser::slang::SlangParser;

const SOURCE: &str = r#"pragma solidity ^0.8.0;

library Maths {
    /// @notice Adds
    /// @param a First
    /// @param b Second
    /// @return sum The sum
    function add(uint256 a, uint256 b) internal pure returns (uint256 sum) {
        return a + b;
    }
}

contract Token {
    /// @notice A color
    enum Color { Red, Green }

    /// @notice A pair
    struct Pair {
        uint256 left;
        IERC20 right;
    }

    /// @notice Moved
    event Moved(address indexed from, uint256);

    /// @notice Built
    constructor(uint256 supply) {
    }

    function take(IERC20 token, uint256) public override {
    }

    function weird() public external {
    }

    modifier guarded {
        _;
    }

    uint256 private hidden;
}
"#;

fn parse(contents: &str) -> Vec<Definition> {
    SlangParser::new(true)
        .parse_document(contents.to_string(), false)
        .unwrap()
        .definitions
}

fn names(ids: &[lintspec::definitions::Identifier]) -> Vec<Option<String>> {
    ids.iter().map(|i| i.name.clone()).collect()
}

#[test]
fn library_function_has_library_parent_and_named_return() {
    let items = parse(SOURCE);
    let f = items
        .iter()
        .find_map(|d| match d {
            Definition::Function(f) if f.name == "add" => Some(f),
            _ => None,
        })
        .unwrap();
    assert_eq!(f.parent, Some(Parent::Library("Maths".to_string())));
    assert_eq!(names(&f.params), vec![Some("a".to_string()), Some("b".to_string())]);
    assert_eq!(names(&f.returns), vec![Some("sum".to_string())]);
    assert_eq!(f.attributes, Attributes { visibility: Visibility::Internal, override_: false });
    let items_doc = &f.natspec.as_ref().unwrap().items;
    assert_eq!(
        items_doc[3],
        NatSpecItem {
            kind: NatSpecKind::Return { name: Some("sum".to_string()) },
            comment: "The sum".to_string()
        }
    );
    let start = SOURCE.find("/// @notice Adds").unwrap();
    let end = SOURCE.find("(uint256 sum)").unwrap() + 1 + "uint256 sum".len();
    assert_eq!(f.span.start.utf8, start);
    assert_eq!(f.span.end.utf8, end);
    assert_eq!(f.span.start.line, 3);
}

#[test]
fn functions_are_listed_once() {
    let items = parse(SOURCE);
    let count = items
        .iter()
        .filter(|d| matches!(d, Definition::Function(f) if f.name == "take"))
        .count();
    assert_eq!(count, 1);
    let count = items
        .iter()
        .filter(|d| matches!(d, Definition::Function(f) if f.name == "weird"))
        .count();
    assert_eq!(count, 1);
    let count = items
        .iter()
        .filter(|d| matches!(d, Definition::Modifier(m) if m.name == "guarded"))
        .count();
    assert_eq!(count, 1);
}

#[test]
fn unnamed_and_typed_parameters() {
    let items = parse(SOURCE);
    let f = items
        .iter()
        .find_map(|d| match d {
            Definition::Function(f) if f.name == "take" => Some(f),
            _ => None,
        })
        .unwrap();
    assert_eq!(names(&f.params), vec![Some("token".to_string()), None]);
    assert_eq!(f.attributes, Attributes { visibility: Visibility::Public, override_: true });
    assert_eq!(f.natspec, None);
    assert_eq!(f.parent, Some(Parent::Contract("Token".to_string())));
    let unnamed = &f.params[1];
    // the parameter's span includes the whitespace before it
    let start = SOURCE.find(" uint256) public override").unwrap();
    assert_eq!(unnamed.span.start.utf8, start);
    assert_eq!(unnamed.span.end.utf8, start + " uint256".len());
}

#[test]
fn last_visibility_keyword_wins() {
    let items = parse(SOURCE);
    let f = items
        .iter()
        .find_map(|d| match d {
            Definition::Function(f) if f.name == "weird" => Some(f),
            _ => None,
        })
        .unwrap();
    assert_eq!(f.attributes.visibility, Visibility::External);
}

#[test]
fn enum_struct_event_constructor() {
    let items = parse(SOURCE);
    let e = items
        .iter()
        .find_map(|d| match d {
            Definition::Enumeration(e) => Some(e),
            _ => None,
        })
        .unwrap();
    assert_eq!(e.name, "Color");
    assert_eq!(names(&e.members), vec![Some("Red".to_string()), Some("Green".to_string())]);
    let s = items
        .iter()
        .find_map(|d| match d {
            Definition::Struct(s) => Some(s),
            _ => None,
        })
        .unwrap();
    assert_eq!(s.name, "Pair");
    assert_eq!(names(&s.members), vec![Some("left".to_string()), Some("right".to_string())]);
    let ev = items
        .iter()
        .find_map(|d| match d {
            Definition::Event(e) => Some(e),
            _ => None,
        })
        .unwrap();
    assert_eq!(ev.name, "Moved");
    assert_eq!(names(&ev.params), vec![Some("from".to_string()), None]);
    let c = items
        .iter()
        .find_map(|d| match d {
            Definition::Constructor(c) => Some(c),
            _ => None,
        })
        .unwrap();
    assert_eq!(names(&c.params), vec![Some("supply".to_string())]);
    assert_eq!(
        c.natspec.as_ref().unwrap().items,
        vec![NatSpecItem { kind: NatSpecKind::Notice, comment: "Built".to_string() }]
    );
}

#[test]
fn modifier_without_parameters_and_private_variable() {
    let items = parse(SOURCE);
    let m = items
        .iter()
        .find_map(|d| match d {
            Definition::Modifier(m) => Some(m),
            _ => None,
        })
        .unwrap();
    assert!(m.params.is_empty());
    let v = items
        .iter()
        .find_map(|d| match d {
            Definition::Variable(v) => Some(v),
            _ => None,
        })
        .unwrap();
    assert_eq!(v.name, "hidden");
    assert_eq!(v.attributes.visibility, Visibility::Private);
}

#[test]
fn bad_natspec_is_reported_in_place() {
    let source = "pragma solidity ^0.8.0;\ncontract C {\n    /// @wrongtag hello\n    function f() public {}\n}\n";
    let items = parse(source);
    let failure = items
        .iter()
        .find_map(|d| match d {
            Definition::NatspecParsingError(e) => Some(e),
            _ => None,
        })
        .unwrap();
    match failure {
        Error::NatspecParsingError { parent, span, message } => {
            assert_eq!(*parent, None);
            assert_eq!(message, "unknown NatSpec tag");
            assert_eq!(span.start.utf8, source.find("/// @wrongtag").unwrap());
            assert_eq!(span.start.line, 2);
        }
        other => panic!("unexpected error {other:?}"),
    }
}

#[test]
fn invalid_source_is_a_parsing_error() {
    let result = SlangParser::new(true).parse_document("contract {".to_string(), false);
    assert!(matches!(result, Err(Error::ParsingError(_))));
}

#[test]
fn unsupported_version_is_refused() {
    let source = "pragma solidity ^0.3.0;\ncontract C {}";
    let result = SlangParser::new(false).parse_document(source.to_string(), false);
    assert!(matches!(result, Err(Error::UnsupportedVersion)));
    let skipped = SlangParser::new(true).parse_document(source.to_string(), false);
    assert!(skipped.is_ok());
}

#[test]
fn keeping_contents_does_not_change_definitions() {
    let kept = SlangParser::new(false).parse_document(SOURCE.to_string(), true).unwrap();
    let dropped = SlangParser::new(false).parse_document(SOURCE.to_string(), false).unwrap();
    assert_eq!(kept.definitions, dropped.definitions);
    assert_eq!(kept.contents, Some(SOURCE.to_string()));
    assert_eq!(dropped.contents, None);
}

#[test]
fn detected_version_parses_old_syntax() {
    // `constant` functions only exist before 0.5.0.
    let source = "pragma solidity ^0.4.24;\ncontract C { function f() public constant returns (uint) { return 1; } }";
    assert!(SlangParser::new(false).parse_document(source.to_string(), false).is_ok());
    assert!(matches!(
        SlangParser::new(true).parse_document(source.to_string(), false),
        Err(Error::ParsingError(_))
    ));
}

#[test]
fn parse_error_message_is_the_first_error() {
    match SlangParser::new(true).parse_document("contract {".to_string(), false) {
        Err(Error::ParsingError(message)) => assert!(message.starts_with("Expected")),
        Err(other) => panic!("unexpected error {other:?}"),
        Ok(_) => panic!("the source should not parse"),
    }
}

#[test]
fn contents_are_kept_on_request() {
    let kept = SlangParser::new(true)
        .parse_document("contract C {}".to_string(), true)
        .unwrap();
    assert_eq!(kept.contents, Some("contract C {}".to_string()));
    let dropped = SlangParser::new(true)
        .parse_document("contract C {}".to_string(), false)
        .unwrap();
    assert_eq!(dropped.contents, None);
}

#[test]
fn default_parser_detects_versions() {
    let parser = SlangParser::default();
    assert!(!parser.skip_version_detection);
}

#[test]
fn queries_compile() {
    assert_eq!(SlangParser::queries().unwrap().len(), 8);
}

#[test]
fn function_with_return_values_matches_with_and_without_them() {
    let items = parse(SOURCE);
    let found: Vec<_> = items
        .iter()
        .filter_map(|d| match d {
            Definition::Function(f) if f.name == "add" => Some(f),
            _ => None,
        })
        .collect();
    assert_eq!(found.len(), 2);
    assert_eq!(names(&found[0].returns), vec![Some("sum".to_string())]);
    assert!(found[1].returns.is_empty());
    let attributes_end = SOURCE.find("pure returns").unwrap() + "pure".len();
    assert_eq!(found[1].span.end.utf8, attributes_end);
}

fn variable_start(source: &str, name: &str) -> usize {
    parse(source)
        .into_iter()
        .find_map(|d| match d {
            Definition::Variable(v) if v.name == name => Some(v.span.start.utf8),
            _ => None,
        })
        .unwrap()
}

#[test]
fn state_variable_spans_start_at_their_first_token() {
    let source = "contract C {\n    IERC20 public token;\n    mapping(address => uint256) balances;\n    uint256[] list;\n    uint256 plain;\n}\n";
    assert_eq!(variable_start(source, "token"), source.find("IERC20").unwrap());
    assert_eq!(variable_start(source, "balances"), source.find("mapping").unwrap());
    assert_eq!(variable_start(source, "list"), source.find("uint256[]").unwrap());
    assert_eq!(variable_start(source, "plain"), source.find("uint256 plain").unwrap());
}

#[test]
fn state_variable_span_starts_at_its_doc_comment() {
    let source = "contract C {\n    /// @notice The owner\n    IERC20 public owner;\n}\n";
    assert_eq!(variable_start(source, "owner"), source.find("/// @notice").unwrap());
}
