use lintspec::definitions::Identifier;
use lintspec::cst::{TextIndex, TextRange};
use lintspec::natspec::{parse_comment, NatSpec, NatSpecItem, NatSpecKind};
use lintspec::parser::slang::{select_comment_block, CommentEntry};
use lintspec::text::trim;

fn item(kind: NatSpecKind, comment: &str) -> NatSpecItem {
    NatSpecItem { kind, comment: comment.to_string() }
}

fn natspec(items: Vec<NatSpecItem>) -> NatSpec {
    NatSpec { items }
}

fn zero_range() -> TextRange {
    let z = TextIndex { utf8: 0, utf16: 0, line: 0, column: 0 };
    TextRange { start: z, end: z }
}

#[test]
fn parses_single_line_tags() {
    let parsed = parse_comment("/// @notice Hello world  ").unwrap();
    assert_eq!(parsed.items, vec![item(NatSpecKind::Notice, "Hello world")]);
    let parsed = parse_comment("///@dev compact").unwrap();
    assert_eq!(parsed.items, vec![item(NatSpecKind::Dev, "compact")]);
    let parsed = parse_comment("/// @title The title").unwrap();
    assert_eq!(parsed.items, vec![item(NatSpecKind::Title, "The title")]);
    let parsed = parse_comment("/// @author Someone").unwrap();
    assert_eq!(parsed.items, vec![item(NatSpecKind::Author, "Someone")]);
}

#[test]
fn untagged_text_is_a_notice() {
    let parsed = parse_comment("/// Just some text").unwrap();
    assert_eq!(parsed.items, vec![item(NatSpecKind::Notice, "Just some text")]);
}

#[test]
fn parses_params_and_custom_tags() {
    let parsed = parse_comment("/// @param amount The amount to send").unwrap();
    assert_eq!(
        parsed.items,
        vec![item(NatSpecKind::Param { name: "amount".to_string() }, "The amount to send")]
    );
    let parsed = parse_comment("/// @custom:security Audited").unwrap();
    assert_eq!(
        parsed.items,
        vec![item(NatSpecKind::Custom { tag: "security".to_string() }, "Audited")]
    );
    let parsed = parse_comment("/// @inheritdoc IERC20").unwrap();
    assert_eq!(
        parsed.items,
        vec![item(NatSpecKind::Inheritdoc { parent: "IERC20".to_string() }, "")]
    );
}

#[test]
fn parses_multiline_comment() {
    let text = "/**\n     * @notice First\n     * @dev Second\n     *\n     * @return The result\n     */";
    let parsed = parse_comment(text).unwrap();
    assert_eq!(
        parsed.items,
        vec![
            item(NatSpecKind::Notice, "First"),
            item(NatSpecKind::Dev, "Second"),
            item(NatSpecKind::Return { name: None }, "The result"),
        ]
    );
    let parsed = parse_comment("/** @notice Inline */").unwrap();
    assert_eq!(parsed.items, vec![item(NatSpecKind::Notice, "Inline")]);
}

#[test]
fn rejects_unknown_tags() {
    assert_eq!(parse_comment("/// @unknown text").unwrap_err(), "unknown NatSpec tag".to_string());
    assert_eq!(parse_comment("/// @custom: text").unwrap_err(), "unknown NatSpec tag".to_string());
}

#[test]
fn rejects_param_without_name() {
    assert_eq!(parse_comment("/// @param").unwrap_err(), "missing name after NatSpec tag".to_string());
}

#[test]
fn rejects_other_comments() {
    assert_eq!(parse_comment("// plain").unwrap_err(), "not a NatSpec comment".to_string());
    assert_eq!(parse_comment("/* block */").unwrap_err(), "not a NatSpec comment".to_string());
}

#[test]
fn empty_comment_has_no_items() {
    let parsed = parse_comment("///").unwrap();
    assert!(parsed.items.is_empty());
}

#[test]
fn names_documented_return_values() {
    let parsed = parse_comment("/// @return total The total\n").unwrap();
    let returns = vec![Identifier { name: Some("total".to_string()), span: zero_range() }];
    let named = parsed.populate_returns(&returns);
    assert_eq!(
        named.items,
        vec![item(NatSpecKind::Return { name: Some("total".to_string()) }, "The total")]
    );
}

#[test]
fn leaves_other_return_comments_alone() {
    let parsed = parse_comment("/// @return The total").unwrap();
    let returns = vec![Identifier { name: Some("total".to_string()), span: zero_range() }];
    let named = parsed.populate_returns(&returns);
    assert_eq!(named.items, vec![item(NatSpecKind::Return { name: None }, "The total")]);
    let parsed = parse_comment("/// @dev total is computed").unwrap();
    let named = parsed.populate_returns(&returns);
    assert_eq!(named.items, vec![item(NatSpecKind::Dev, "total is computed")]);
}

#[test]
fn append_moves_items() {
    let mut a = natspec(vec![item(NatSpecKind::Notice, "a")]);
    let mut b = natspec(vec![item(NatSpecKind::Dev, "b")]);
    a.append(&mut b);
    assert_eq!(a.items, vec![item(NatSpecKind::Notice, "a"), item(NatSpecKind::Dev, "b")]);
    assert!(b.items.is_empty());
}

#[test]
fn trims_whitespace() {
    assert_eq!(trim("  a b \t\n"), "a b".to_string());
    assert_eq!(trim("\u{3000}x\u{00A0}"), "x".to_string());
    assert_eq!(trim("   "), String::new());
    assert_eq!(trim("plain"), "plain".to_string());
}

fn entry(multiline: bool, line: usize, text: &str) -> CommentEntry {
    CommentEntry { multiline, line, natspec: natspec(vec![item(NatSpecKind::Notice, text)]) }
}

#[test]
fn no_comment_no_documentation() {
    assert_eq!(select_comment_block(Vec::new()), None);
}

#[test]
fn multiline_comment_wins() {
    let chosen = select_comment_block(vec![entry(false, 1, "one"), entry(true, 2, "two")]).unwrap();
    assert_eq!(chosen.items, vec![item(NatSpecKind::Notice, "two")]);
}

#[test]
fn single_line_block_stops_at_gap() {
    let chosen = select_comment_block(vec![
        entry(false, 1, "far"),
        entry(false, 3, "first"),
        entry(false, 4, "second"),
    ])
    .unwrap();
    assert_eq!(
        chosen.items,
        vec![item(NatSpecKind::Notice, "first"), item(NatSpecKind::Notice, "second")]
    );
}

#[test]
fn single_line_block_stops_at_multiline() {
    let chosen = select_comment_block(vec![
        entry(true, 1, "block"),
        entry(false, 2, "first"),
        entry(false, 3, "second"),
    ])
    .unwrap();
    assert_eq!(
        chosen.items,
        vec![item(NatSpecKind::Notice, "first"), item(NatSpecKind::Notice, "second")]
    );
}

#[test]
fn single_line_block_runs_to_start() {
    let chosen = select_comment_block(vec![entry(false, 0, "a"), entry(false, 1, "b")]).unwrap();
    assert_eq!(chosen.items, vec![item(NatSpecKind::Notice, "a"), item(NatSpecKind::Notice, "b")]);
}
