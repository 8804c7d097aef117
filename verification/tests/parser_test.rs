use lintspec::cst::SolidityVersion;
use lintspec::version::detect_solidity_version;
use lintspec::definitions::{
    Definition, ErrorDefinition, EventDefinition, FunctionDefinition, ModifierDefinition, Parent,
    StructDefinition, VariableDeclaration,
};
use lintspec::natspec::{NatSpecItem, NatSpecKind};
use lintspec::parser::slang::SlangParser;

const PARSER_TEST: &str = r#"// SPDX-License-Identifier: MIT
pragma solidity ^0.8.0;

interface IParserTest {
    /// @notice Thrown whenever something goes wrong
    error SimpleError(uint256 _param1, uint256 _param2);

    /// @notice Emitted whenever something happens
    event SimpleEvent(uint256 _param1, uint256 _param2);

    /// @notice A struct holding 2 variables of type uint256
    /// @param a The first variable
    /// @param b The second variable
    /// @dev This is definitely a struct
    struct SimplestStruct {
        uint256 a;
        uint256 b;
    }

    /// @notice View function with no parameters
    /// @dev Natspec for the return value is missing
    /// @return The returned value
    function viewFunctionNoParams() external view returns (uint256);

    /**
     * @notice A function with different style of natspec
     * @param _param1 The first parameter
     * @param _param2 The second parameter
     * @return The returned value
     */
    function viewFunctionWithParams(uint256 _param1, uint256 _param2) external view returns (uint256);
}

contract ParserTest is IParserTest {
    /// @inheritdoc IParserTest
    uint256 public constant SOME_CONSTANT = 123;

    /// @inheritdoc IParserTest
    uint256 public someVariable;

    /// @notice The description of the modifier
    /// @param _param1 The only parameter
    modifier someModifier(bool _param1) {
        _;
    }

    /// @notice The description of the modifier
    modifier modifierWithoutParam {
        _;
    }

    /// @inheritdoc IParserTest
    /// @dev Dev comment for the function
    function viewFunctionNoParams() external pure returns (uint256) {
        return 1;
    }

    /// @inheritdoc IParserTest
    function viewFunctionWithParams(uint256 _param1, uint256 _param2) external pure returns (uint256) {
        return _param1 + _param2;
    }

    /// @notice Some private stuff
    /// @dev Dev comment for the private function
    /// @param _paramName The parameter name
    /// @return _returned The returned value
    function _viewPrivate(uint256 _paramName) private pure returns (uint256 _returned) {
        return _paramName;
    }

    /// @notice Some internal stuff
    /// Separate line
    /// Third one
    function _viewMultiline() internal pure {
    }

    /// @notice Some internal stuff
    /// @notice Separate line
    function _viewDuplicateTag() internal pure {
    }
}

contract ParserTestFunny is IParserTest {
    // no natspec, just a comment
    struct SimpleStruct {
        uint256 a;
    }

    /// @inheritdoc IParserTest
    /// @dev Providing context
    uint256 public someVariable;

    // forgot the natspec
    uint256 public constant SOME_CONSTANT = 123;

    function viewFunctionWithParams(uint256 _param1, uint256 _param2) external pure returns (uint256) {
        return _param1 + _param2;
    }

    /**
     * @notice Some private stuff
     * @param _paramName The parameter name
     * @return _returned The returned value
     */
    function _viewPrivateMulti(uint256 _paramName) private pure returns (uint256 _returned) {
        return _paramName;
    }

    /// @notice Some private stuff
    /// @param _paramName The parameter name
    /// @return _returned The returned value
    function _viewPrivateSingle(uint256 _paramName) private pure returns (uint256 _returned) {
        return _paramName;
    }

    // @notice Not a NatSpec comment
    function _viewInternal() internal pure {
    }

    /// @notice Overridden below
    /**
     * @notice Linter fail
     * @dev What have I done
     */
    function _viewLinterFail() internal pure {
    }

    /// @notice fun fact: there are extra spaces after the 1st return
    /// @return    
    /// @return
    function functionUnnamedEmptyReturn() external view returns (uint256, bool) {
        return (1, true);
    }
}
"#;

fn parse_file(contents: &str) -> Vec<Definition> {
    let parser = SlangParser::new(true);
    parser.parse_document(contents.to_string(), false).unwrap().definitions
}

fn contract(name: &str) -> Option<Parent> {
    Some(Parent::Contract(name.to_string()))
}

fn interface(name: &str) -> Option<Parent> {
    Some(Parent::Interface(name.to_string()))
}

fn find_function<'a>(name: &str, parent: Option<Parent>, items: &'a [Definition]) -> &'a FunctionDefinition {
    items
        .iter()
        .find_map(|d| match d {
            Definition::Function(def) if def.name == name && def.parent == parent => Some(def),
            _ => None,
        })
        .unwrap()
}

fn find_variable<'a>(name: &str, parent: Option<Parent>, items: &'a [Definition]) -> &'a VariableDeclaration {
    items
        .iter()
        .find_map(|d| match d {
            Definition::Variable(def) if def.name == name && def.parent == parent => Some(def),
            _ => None,
        })
        .unwrap()
}

fn find_modifier<'a>(name: &str, parent: Option<Parent>, items: &'a [Definition]) -> &'a ModifierDefinition {
    items
        .iter()
        .find_map(|d| match d {
            Definition::Modifier(def) if def.name == name && def.parent == parent => Some(def),
            _ => None,
        })
        .unwrap()
}

fn find_error<'a>(name: &str, parent: Option<Parent>, items: &'a [Definition]) -> &'a ErrorDefinition {
    items
        .iter()
        .find_map(|d| match d {
            Definition::Error(def) if def.name == name && def.parent == parent => Some(def),
            _ => None,
        })
        .unwrap()
}

fn find_event<'a>(name: &str, parent: Option<Parent>, items: &'a [Definition]) -> &'a EventDefinition {
    items
        .iter()
        .find_map(|d| match d {
            Definition::Event(def) if def.name == name && def.parent == parent => Some(def),
            _ => None,
        })
        .unwrap()
}

fn find_struct<'a>(name: &str, parent: Option<Parent>, items: &'a [Definition]) -> &'a StructDefinition {
    items
        .iter()
        .find_map(|d| match d {
            Definition::Struct(def) if def.name == name && def.parent == parent => Some(def),
            _ => None,
        })
        .unwrap()
}

fn item(kind: NatSpecKind, comment: &str) -> NatSpecItem {
    NatSpecItem { kind, comment: comment.to_string() }
}

fn inheritdoc(parent: &str) -> NatSpecItem {
    item(NatSpecKind::Inheritdoc { parent: parent.to_string() }, "")
}

fn param(name: &str, comment: &str) -> NatSpecItem {
    item(NatSpecKind::Param { name: name.to_string() }, comment)
}

fn ret(name: Option<&str>, comment: &str) -> NatSpecItem {
    item(NatSpecKind::Return { name: name.map(|n| n.to_string()) }, comment)
}

#[test]
fn test_parse_external_function() {
    let items = parse_file(PARSER_TEST);
    let item_def = find_function("viewFunctionNoParams", contract("ParserTest"), &items);
    assert_eq!(
        item_def.natspec.as_ref().unwrap().items,
        vec![inheritdoc("IParserTest"), item(NatSpecKind::Dev, "Dev comment for the function")]
    );
}

#[test]
fn test_parse_constant() {
    let items = parse_file(PARSER_TEST);
    let item_def = find_variable("SOME_CONSTANT", contract("ParserTest"), &items);
    assert_eq!(item_def.natspec.as_ref().unwrap().items, vec![inheritdoc("IParserTest")]);
}

#[test]
fn test_parse_variable() {
    let items = parse_file(PARSER_TEST);
    let item_def = find_variable("someVariable", contract("ParserTest"), &items);
    assert_eq!(item_def.natspec.as_ref().unwrap().items, vec![inheritdoc("IParserTest")]);
}

#[test]
fn test_parse_modifier() {
    let items = parse_file(PARSER_TEST);
    let item_def = find_modifier("someModifier", contract("ParserTest"), &items);
    assert_eq!(
        item_def.natspec.as_ref().unwrap().items,
        vec![
            item(NatSpecKind::Notice, "The description of the modifier"),
            param("_param1", "The only parameter"),
        ]
    );
}

#[test]
fn test_parse_modifier_no_param() {
    let items = parse_file(PARSER_TEST);
    let item_def = find_modifier("modifierWithoutParam", contract("ParserTest"), &items);
    assert_eq!(
        item_def.natspec.as_ref().unwrap().items,
        vec![item(NatSpecKind::Notice, "The description of the modifier")]
    );
}

#[test]
fn test_parse_private_function() {
    let items = parse_file(PARSER_TEST);
    let item_def = find_function("_viewPrivate", contract("ParserTest"), &items);
    assert_eq!(
        item_def.natspec.as_ref().unwrap().items,
        vec![
            item(NatSpecKind::Notice, "Some private stuff"),
            item(NatSpecKind::Dev, "Dev comment for the private function"),
            param("_paramName", "The parameter name"),
            ret(Some("_returned"), "The returned value"),
        ]
    );
}

#[test]
fn test_parse_multiline_descriptions() {
    let items = parse_file(PARSER_TEST);
    let item_def = find_function("_viewMultiline", contract("ParserTest"), &items);
    assert_eq!(
        item_def.natspec.as_ref().unwrap().items,
        vec![
            item(NatSpecKind::Notice, "Some internal stuff"),
            item(NatSpecKind::Notice, "Separate line"),
            item(NatSpecKind::Notice, "Third one"),
        ]
    );
}

#[test]
fn test_parse_multiple_same_tag() {
    let items = parse_file(PARSER_TEST);
    let item_def = find_function("_viewDuplicateTag", contract("ParserTest"), &items);
    assert_eq!(
        item_def.natspec.as_ref().unwrap().items,
        vec![
            item(NatSpecKind::Notice, "Some internal stuff"),
            item(NatSpecKind::Notice, "Separate line"),
        ]
    );
}

#[test]
fn test_parse_error() {
    let items = parse_file(PARSER_TEST);
    let item_def = find_error("SimpleError", interface("IParserTest"), &items);
    assert_eq!(
        item_def.natspec.as_ref().unwrap().items,
        vec![item(NatSpecKind::Notice, "Thrown whenever something goes wrong")]
    );
}

#[test]
fn test_parse_event() {
    let items = parse_file(PARSER_TEST);
    let item_def = find_event("SimpleEvent", interface("IParserTest"), &items);
    assert_eq!(
        item_def.natspec.as_ref().unwrap().items,
        vec![item(NatSpecKind::Notice, "Emitted whenever something happens")]
    );
}

#[test]
fn test_parse_struct() {
    let items = parse_file(PARSER_TEST);
    let item_def = find_struct("SimplestStruct", interface("IParserTest"), &items);
    assert_eq!(
        item_def.natspec.as_ref().unwrap().items,
        vec![
            item(NatSpecKind::Notice, "A struct holding 2 variables of type uint256"),
            param("a", "The first variable"),
            param("b", "The second variable"),
            item(NatSpecKind::Dev, "This is definitely a struct"),
        ]
    );
}

#[test]
fn test_parse_external_function_no_params() {
    let items = parse_file(PARSER_TEST);
    let item_def = find_function("viewFunctionNoParams", interface("IParserTest"), &items);
    assert_eq!(
        item_def.natspec.as_ref().unwrap().items,
        vec![
            item(NatSpecKind::Notice, "View function with no parameters"),
            item(NatSpecKind::Dev, "Natspec for the return value is missing"),
            ret(None, "The returned value"),
        ]
    );
}

#[test]
fn test_parse_external_function_params() {
    let items = parse_file(PARSER_TEST);
    let item_def = find_function("viewFunctionWithParams", interface("IParserTest"), &items);
    assert_eq!(
        item_def.natspec.as_ref().unwrap().items,
        vec![
            item(NatSpecKind::Notice, "A function with different style of natspec"),
            param("_param1", "The first parameter"),
            param("_param2", "The second parameter"),
            ret(None, "The returned value"),
        ]
    );
}

#[test]
fn test_parse_funny_struct() {
    let items = parse_file(PARSER_TEST);
    let item_def = find_struct("SimpleStruct", contract("ParserTestFunny"), &items);
    assert_eq!(item_def.natspec, None);
}

#[test]
fn test_parse_funny_variable() {
    let items = parse_file(PARSER_TEST);
    let item_def = find_variable("someVariable", contract("ParserTestFunny"), &items);
    assert_eq!(
        item_def.natspec.as_ref().unwrap().items,
        vec![inheritdoc("IParserTest"), item(NatSpecKind::Dev, "Providing context")]
    );
}

#[test]
fn test_parse_funny_constant() {
    let items = parse_file(PARSER_TEST);
    let item_def = find_variable("SOME_CONSTANT", contract("ParserTestFunny"), &items);
    assert_eq!(item_def.natspec, None);
}

#[test]
fn test_parse_funny_function_params() {
    let items = parse_file(PARSER_TEST);
    let item_def = find_function("viewFunctionWithParams", contract("ParserTestFunny"), &items);
    assert_eq!(item_def.natspec, None);
}

#[test]
fn test_parse_funny_function_private() {
    let items = parse_file(PARSER_TEST);
    let item_def = find_function("_viewPrivateMulti", contract("ParserTestFunny"), &items);
    assert_eq!(
        item_def.natspec.as_ref().unwrap().items,
        vec![
            item(NatSpecKind::Notice, "Some private stuff"),
            param("_paramName", "The parameter name"),
            ret(Some("_returned"), "The returned value"),
        ]
    );
}

#[test]
fn test_parse_funny_function_private_single() {
    let items = parse_file(PARSER_TEST);
    let item_def = find_function("_viewPrivateSingle", contract("ParserTestFunny"), &items);
    assert_eq!(
        item_def.natspec.as_ref().unwrap().items,
        vec![
            item(NatSpecKind::Notice, "Some private stuff"),
            param("_paramName", "The parameter name"),
            ret(Some("_returned"), "The returned value"),
        ]
    );
}

#[test]
fn test_parse_funny_internal() {
    let items = parse_file(PARSER_TEST);
    let item_def = find_function("_viewInternal", contract("ParserTestFunny"), &items);
    assert_eq!(item_def.natspec, None);
}

#[test]
fn test_parse_funny_linter_fail() {
    let items = parse_file(PARSER_TEST);
    let item_def = find_function("_viewLinterFail", contract("ParserTestFunny"), &items);
    assert_eq!(
        item_def.natspec.as_ref().unwrap().items,
        vec![item(NatSpecKind::Notice, "Linter fail"), item(NatSpecKind::Dev, "What have I done")]
    );
}

#[test]
fn test_parse_funny_empty_return() {
    let items = parse_file(PARSER_TEST);
    let item_def = find_function("functionUnnamedEmptyReturn", contract("ParserTestFunny"), &items);
    assert_eq!(
        item_def.natspec.as_ref().unwrap().items,
        vec![
            item(NatSpecKind::Notice, "fun fact: there are extra spaces after the 1st return"),
            ret(None, ""),
            ret(None, ""),
        ]
    );
}

#[test]
fn test_parse_solidity_latest() {
    let contents = "// SPDX-License-Identifier: MIT\npragma solidity ^0.8.28;\n\ncontract Latest {\n    uint256 counter;\n}\n";
    let solidity_version = detect_solidity_version(contents).unwrap();
    assert_eq!(solidity_version, SolidityVersion { major: 0, minor: 8, patch: 28 });
    let parser = SlangParser::new(false);
    assert!(parser.parse_tree(contents).is_ok());
}

#[test]
fn test_parse_solidity_unsupported() {
    let parser = SlangParser::new(true);
    let contents = "// SPDX-License-Identifier: MIT\npragma solidity ^0.3.0;\n\ncontract Old {\n}\n";
    let output = parser.parse_document(contents.to_string(), false);
    assert!(output.is_ok());
}
