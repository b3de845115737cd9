# neco

A small proof-assistant kernel and compiler toolchain, with its behaviour stated in
`requires`/`ensures` contracts and proved with Verus.

- `src/id.rs`, `term.rs`, `substitution.rs`, `local_context.rs`, `global_environment.rs`,
  `inductive.rs`, `reduction.rs`, `typechecker.rs`, `term_text.rs`: a kernel for the
  Calculus of Inductive Constructions (terms, substitution, β/ζ/δ/ι reduction, type
  inference and checking).
- `src/scope.rs`: stacks of scopes; `src/rename.rs`: renaming of the logic language,
  giving each variable the identifier of the binding it refers to; `src/rename_defs.rs`:
  identifiers of definitions.
- `src/syntax.rs`: the syntax tree of the surface language. Programs enter the library as
  syntax trees: the crate has no lexer or parser, and no code generator for typed trees.
- `src/compiler.rs`, `statement.rs`, `arithmetic.rs`, `arrays.rs`, `syscall.rs`,
  `utils.rs`: the x86-64 assembly compiler; `src/lowering.rs` is the model of the code
  each construct emits, and `src/emission.rs` proves that compiling only appends.
- `src/ptx.rs`: compilation of GPU kernels to PTX.
- `src/names.rs`, `codegen.rs`, `compile_text.rs`, `text.rs`: name tables, errors and
  text helpers.
- `app/lib.rs`: the floating-point helpers that compute the IEEE bits of number literals.
