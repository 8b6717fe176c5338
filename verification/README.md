# brust front end, verified

A compiler front end for a small Rust-like language, written in Verus:

- `src/lexer.rs` — bytes to tokens; `tokenize` is proved equal to the lexical rules
  (`tokens_from`), which are stated as spec functions over the source bytes.
- `src/parser.rs` — tokens to the syntax tree of `src/ast.rs`; every parsing method is
  proved to follow the grammar in `src/parser/grammar.rs`, stated over the model of the
  tree in `src/parser/tree.rs`, diagnostics included.
- `src/type_checker.rs` and `src/type_checker/` — the type checker and the borrow
  checker; `check` is proved equal to `spec_check`.
- `src/codegen.rs` — C code for programs made of `println!` statements.
- `src/laws.rs` — properties that span these parts.
- `app/main.rs` — the command-line driver: file I/O and the C compiler call.
