# lintspec (verified core)

Finds the source items of Solidity files (constructors, enums, errors,
events, functions, modifiers, structs, state variables) and the NatSpec
documentation comments that describe them, on top of the concrete syntax
tree that `slang_solidity` builds.

- `src/cst.rs`: the view of slang's syntax tree that the rest relies on
  (a pre-order list of nodes and a cursor place), and the calls into slang.
- `src/parser/slang.rs`: the extraction of items, their spans, parameters,
  attributes, parent contract and documentation, with their contracts and
  laws.
- `src/natspec.rs`: NatSpec comments and their parser.
- `src/definitions.rs`: the items and errors the parser reports.
- `src/text.rs`: whitespace trimming and scanning on characters.
- `src/version.rs`: the Solidity version a file asks for in its
  `pragma solidity` directive.
- `app/`: a command line front end that reads files and prints their items
  (`--skip-version-detection` parses with the latest supported version).
