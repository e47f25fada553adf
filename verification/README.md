# typescript_eslint

Lint rules for TypeScript source, written in Verus. Each rule is a verified
function from syntax trees (or comments, or traversal events) and the rule's
options to the violations it reports, with the fixes it offers.

Layout:

- `src/syntax.rs`: the syntax tree the rules read (`SyntaxNode`, node kinds,
  fields) and the child lookups they use, with their specifications.
- `src/ast_helpers.rs`, `src/util.rs`, `src/text.rs`, `src/report.rs`: shared
  predicates on nodes, member names, text helpers and text edits.
- `src/rules/`: one module per rule. Each states what it reports as a spec
  function over the tree and proves its rule function against it; the public
  proof functions at the end of each module state the rule's laws.
- `tests/`: tests on concrete trees, and whole pieces of TypeScript read by a
  small reader in each test file and run through a rule.
- `app/`: option types that can be read with serde, converted to the
  library's own.

Text measured in grapheme clusters (`unicode-segmentation`), description
patterns (`regex`) and the ordered comment set (`indexmap`) are used through
small trusted wrappers whose contracts are written next to them.
