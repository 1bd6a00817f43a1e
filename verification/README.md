# klc

A compiler for the KNOB language, written in Verus. Source text goes through a
tokenizer, a Pratt parser, semantic analysis with type inference, an
intermediate language (KLIR) and an AArch64 assembly generator. Every stage is
a verified function whose contract is stated over a mathematical model of its
input and output; the whole pipeline is `Compiler::compile_to_asm`, specified by
`compiler::spec_compile`.

## Layout

- `src/lexer.rs` — tokens, the symbol table and the tokenizer.
- `src/parser.rs` — the parser and its model (`spec_program`).
- `src/ast.rs`, `src/assoc.rs` — the syntax tree, its value view, and
  association lists keyed by symbol.
- `src/semantics.rs` — checking and typing (`spec_sema_stmts`).
- `src/irgenerator.rs`, `src/klir_text.rs` — KLIR generation and its text form.
- `src/backend.rs` — assembly text (`spec_generate`).
- `src/compiler.rs` — the pipeline.
- `src/diagnostics.rs`, `src/text.rs`, `src/traits.rs` — diagnostics, number
  and string text, the token cursor.
- `src/laws.rs`, `src/parserlaws.rs`, `src/semalaws.rs`, `src/irlaws.rs`, `src/labellaws.rs`,
  `src/backendlaws.rs` — properties of the language and of the stages, proved
  over the models.
- `app/` — the command line program: reads the source file, prints
  diagnostics, writes the assembly and runs the assembler and linker.
- `tests/` — tests of each stage and of the pipeline; `tests/run_tests.rs`
  runs the generated assembly on a small model of the AArch64 instructions it
  uses and checks the exit status of the programs.

Top-level statements form the entry function `main`. The parser reads
function definitions (`fn`) and calls, and code generation turns each
definition into a function of its own, but semantic analysis does not yet
check them: it stops (`SemaError::Abort`) at a function definition or a call,
so a program that contains one is not compiled.
