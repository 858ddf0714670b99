# just_mcp

Tools that read justfiles and publish their recipes: recipe and parameter
extraction, dependency validation, interpolation and expression analysis,
tool names, the built-in guides served as resources, and the administration
helpers that add recipes to a justfile.

- `src/` is the library, written and proved with Verus. Public functions
  state their results in their `ensures`; what an outside crate computes
  (regular expressions, the syntax tree, Unicode classes) is named there
  rather than described. The laws that relate several functions are public
  proof functions whose names start with `lemma_`. The choice among the
  parsers (syntax tree, then `just`, then regular expressions, then a
  minimal task) is the step function `tier_step` of `src/parser/tiers.rs`;
  the program runs each parser and feeds the outcome back.
  Regular expressions are compiled and matched by the `regex` crate behind the
  small wrappers of `src/pattern.rs`; justfiles are parsed into syntax trees,
  and queries run over them, by the `tree-sitter` crate with the
  `tree-sitter-just` grammar behind the wrappers of
  `src/parser/ast/syntax.rs`, which hand the nodes and matches on as plain
  records.
- `tests/` runs the library on concrete justfiles and values.
- `app/` is the command-line program: it reads files, runs `just`, measures
  time, prints JSON, and computes the floating-point rates of the parsing
  report.

Run `just-mcp` without arguments to see the watched directory, or with
`parse <justfile>` to print the recipes it finds.
