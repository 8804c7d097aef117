//! Extraction of Solidity source items and their NatSpec documentation
//! comments from a `slang_solidity` syntax tree.
use vstd::prelude::*;

pub mod cst;
pub mod definitions;
pub mod natspec;
pub mod parser;
pub mod text;
pub mod version;

verus! {

} // verus!
