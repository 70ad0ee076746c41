# aeonmi

The Aeonmi language toolkit as a Verus-verified library.

- `src/` is the library. Every function in it carries a `requires`/`ensures`
  contract checked by Verus; the calls into outside crates (SHA-256, ChaCha20,
  base64, JSON, Unicode tables, random numbers, the clock) go through small
  trusted wrappers whose contracts are documented where they stand.
- `tests/` exercises the library on concrete values.
- `app/` holds what touches the outside world: printing coloured diagnostics,
  the key store on disk, and finding a Python interpreter with Qiskit; and the
  parts that compute with floating-point numbers (gate angles, device error
  rates, bond strengths), which call the library for every other decision.

The JavaScript back end (`src/code_generator.rs`, with the text it writes stated in
`src/js_text.rs`) turns syntax trees into JavaScript with the runtime helpers they
need; number literals are written as the lexer read them.

Statements and expressions are lowered to the intermediate representation of
`src/ir.rs` by `src/lowering.rs`.

What the crate does not include: a parser from `.ai` tokens to the syntax tree,
the lowering of whole programs to modules, the bytecode compiler with its
constant folding, and the canonical `.ai` emitter. The parser's helpers (token cursor, type-annotation
skipping, errors) are in `src/parser.rs`.
