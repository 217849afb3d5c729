# tern

The front end of a small statically typed language, written in Verus: the
semantic checker's type rules, the type-flow graph of conditions, the blocks
and values of a control-flow graph with the SSA construction that passes
values between blocks, the interners, and the text of error reports. The lowering
of expressions into the graph covers literals, names, `&&`, `||`, blocks and
`if`. Functions carry contracts that Verus proves.

Layout:

- `src/types`: the semantic types, their lists, copies, equality and sizes.
- `src/check`: scopes and the checker state, assignability, comparability,
  unions, substitution and inference of generic parameters, annotation
  checking, return collection, condition analysis and the type-flow graph,
  and how types are written in messages.
- `src/hir`: values, instructions, terminators and basic blocks; the function
  builder with SSA construction (`use_value_in_block`, `seal_block`,
  `read_place`); the lowering of expressions (`lowering.rs`) and the
  declarations and scopes it reads; counters, lowering errors and their
  codes; the program and module builders.
- `src/compile`: compilation errors, the headline, code and label of each
  error report, and the sorting of texts that reports use.
- `src/interner.rs`, `src/string_interner.rs`, `src/span_registry.rs`: ids for
  names and tags, and the spans of nodes.
- `app/`: file caches for the reporter, reading modules in parallel, and
  printing the reports.
- `tests/`: tests on concrete values.
