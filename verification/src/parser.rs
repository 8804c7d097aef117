//! Parsers that find the source items of a Solidity file.
pub mod slang;
