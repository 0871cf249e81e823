# monkey

An interpreter for the Monkey programming language (from *Writing An
Interpreter In Go*), with a bytecode compiler and stack machine, written in
Verus: each stage states what it computes as a specification over
mathematical values, and is proved to compute it.

## Layout

- `src/lexer.rs` — source text to tokens (`spec_lex`), and the law that a
  printed token lexes back to itself.
- `src/parser/` — tokens to a syntax tree: `spec.rs` states the
  recursive-descent grammar with operator precedence and error recovery,
  `descent.rs` is the parser, `error.rs` the parse errors and their messages.
- `src/ast.rs` — the syntax tree, its view and its printed form.
- `src/object.rs`, `src/object/env.rs` — runtime values, operators, printed
  forms; environments of frames with the laws of lookup and binding.
- `src/eval/` — the evaluator: `semantics.rs` is a big-step semantics,
  `evaluator.rs` and `builtins.rs` implement it, `laws.rs` proves what
  evaluation keeps.
- `src/bytecode.rs` — instructions, their byte encoding, decoding of
  `OpConstant` and `OpAdd` (with the round-trip law), disassembly.
- `src/compiler.rs` — syntax tree to instructions and a constant pool.
- `src/vm.rs`, `src/vm/machine.rs` — the stack machine; `src/vm/agreement.rs`
  proves that the machine gives the evaluator's value on straight-line
  programs.
- `src/interpreter.rs` — a session that evaluates source texts one after
  another in one environment, and the one-line `output|value` form of a
  result.
- `app/main.rs` — the read-eval-print loop.

A `return` ends the function call it stands in, and the returned value is the
value of the call; at the top level it ends the program.

Where the machine or the evaluator would abort (arithmetic overflow, division
by zero, calls nested more deeply than a `usize` counts, an instruction the
machine does not run),
the functions come in two forms: `try_*` returns `None`, and the plain form
requires that it does not happen.
