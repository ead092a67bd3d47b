# apex_codegen

The code generator of the Apex language: it turns a parsed Apex program into
an LLVM module.

The generator is written and proved in Verus. It does not drive LLVM
directly: every builder call it makes is recorded, as plain values, in an
instruction log (`src/ir.rs`) that models what the LLVM builder would do
(types of values, constant folding, where the builder stands, and whether
the block it stands in already ends in a terminator). `app/` replays that
log through `inkwell` and writes the module as LLVM IR or as an object file.

Layout of `src/`:

- `ast.rs`: the program representation the generator reads.
- `layout.rs`, `classes.rs`, `externs.rs`: how Apex types, classes and the
  C library functions are laid out in LLVM.
- `state.rs`, `tables.rs`: declared functions and classes, variables in
  scope, loop targets, fresh names.
- `captures.rs`, `infer.rs`, `dispatch.rs`, `lowering.rs`, `matching.rs`,
  `program.rs`, `stdlib.rs`, `text.rs`: the decisions behind lowering, each
  a function of plain values with an exact contract.
- `ir.rs`: the instruction log.
- `codegen.rs`, `stmts.rs`, `exprs.rs`, `calls.rs`, `builtins.rs`,
  `stdcalls.rs`, `lambda.rs`: the emission of declarations, statements,
  expressions, calls, built-in collections, the standard library and
  lambdas.

Laws that span several functions are public proof functions named `law_*`.
