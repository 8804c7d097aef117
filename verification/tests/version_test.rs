use lintspec::cst::SolidityVersion;
use lintspec::definitions::Error;
use lintspec::version::{detect_solidity_version, get_latest_supported_version};

fn v(major: u64, minor: u64, patch: u64) -> SolidityVersion {
    SolidityVersion { major, minor, patch }
}

#[test]
fn latest_supported_version_is_0_8_28() {
    assert_eq!(get_latest_supported_version(), v(0, 8, 28));
}

#[test]
fn no_pragma_gives_the_default() {
    assert_eq!(detect_solidity_version("contract C {}").unwrap(), v(0, 8, 0));
}

#[test]
fn caret_picks_the_highest_patch() {
    assert_eq!(detect_solidity_version("pragma solidity ^0.4.0;").unwrap(), v(0, 4, 26));
    assert_eq!(detect_solidity_version("pragma solidity ^0.8.0;").unwrap(), v(0, 8, 28));
}

#[test]
fn exact_version() {
    assert_eq!(detect_solidity_version("pragma solidity 0.6.12;").unwrap(), v(0, 6, 12));
    assert_eq!(detect_solidity_version("pragma solidity =0.5.3;").unwrap(), v(0, 5, 3));
    assert_eq!(detect_solidity_version("pragma solidity 0.8.4;").unwrap(), v(0, 8, 4));
}

#[test]
fn space_separated_comparators_must_all_hold() {
    assert_eq!(detect_solidity_version("pragma solidity >=0.7.0 <0.8.0;").unwrap(), v(0, 7, 6));
    assert_eq!(detect_solidity_version("pragma solidity >= 0.6.0 < 0.7.0;").unwrap(), v(0, 6, 12));
}

#[test]
fn double_pipes_separate_alternatives() {
    assert_eq!(detect_solidity_version("pragma solidity 0.6.0 || >=0.7.0 <0.8.0;").unwrap(), v(0, 7, 6));
    assert_eq!(detect_solidity_version("pragma solidity ^0.5.0 || 0.4.20;").unwrap(), v(0, 5, 17));
}

#[test]
fn only_the_first_pragma_counts() {
    let src = "pragma solidity ^0.6.0;\npragma solidity ^0.8.0;\ncontract C {}";
    assert_eq!(detect_solidity_version(src).unwrap(), v(0, 6, 12));
}

#[test]
fn pragma_after_other_text() {
    let src = "// SPDX-License-Identifier: MIT\npragma   solidity\t~0.7.1;\n";
    assert_eq!(detect_solidity_version(src).unwrap(), v(0, 7, 6));
}

#[test]
fn unsupported_requirement() {
    assert!(matches!(detect_solidity_version("pragma solidity >=0.9.0;"), Err(Error::UnsupportedVersion)));
}

#[test]
fn invalid_requirement() {
    assert!(matches!(detect_solidity_version("pragma solidity abc;"), Err(Error::ParsingError(_))));
}
