# Rox

Rox is a small statically typed language.  This crate is its verified
library, written in Verus; every function in `src/` carries a contract that
Verus proves.

## Layout

- `src/roxc/` — the compiler's front end.
  - `parser/` — the lexer (`lexer.rs`), the grammar as spec functions
    (`grammar.rs`), the reader that follows it (`reader.rs`) and the syntax
    tree (`syntax.rs`).  `parse_string` is proved to give exactly what the
    grammar reads, or the diagnostic for where reading stopped.
  - `semant/` — the type checker: types and their models, substitution,
    unification, the checking rules as spec functions (`checker_spec.rs`)
    and the checker itself (`type_checker.rs`, `expressions.rs`).
  - `errors.rs` — diagnostics: a file, labelled spans and notes.
  - `stack.rs`, `options/`, `syntax.rs` and the result types.
- `src/lox/` — the bytecode compiler for arithmetic expressions: the
  scanner, the Pratt compiler (`compile.rs`) proved against a model of its
  state, and the chunk it writes.
- `src/interpreter/` — definitions shared with the bytecode machines:
  instructions, parse rules, a stack, the interpreter's errors.
- `app/` — the `rox` command: argument handling, reading files, printing
  diagnostics with `codespan-reporting`, generating LLVM bitcode with
  `inkwell`, running `llc`, `cc` and `lli`, and the bytecode machine with
  its prompt.
- `tests/` — tests of the library.

## Use

`rox build program.rox -o program` compiles and links an executable
(`--no-link` keeps the object file); `rox run program.rox` runs it with
LLVM's interpreter; `rox` alone starts the prompt of the bytecode machine.
