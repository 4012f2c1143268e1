# disguise

The parsing core of the `disguise` view template engine, written in Verus:
every function of the library carries a contract that Verus proves.

Layout of `src/`:

- `tokenizer/`: the byte-level tokenizer (`token.rs`, `tokenizer.rs`), the
  byte and token streams with their skipping helpers (`stream.rs`), and
  proved laws of tokenization (`laws.rs`): the tokens cut the source into
  consecutive pieces on character boundaries, whose texts join back into it.
- `template/`: the `@`-template parser. `grammar.rs` states, as spec
  functions, what each parsing function returns; `block.rs`, `context.rs`,
  `code.rs`, `content.rs` and `parse.rs` implement it; `template.rs` parses a
  whole template.
- `doc/`: the parsing context of view documents.
- `html/`: an HTML fragment reader (a state machine, specified step by step
  in `machine.rs`), its nodes and documents, and the writer that prints a
  fragment as compactly as its unknown context allows.
- `optimizer/`: per-token markup optimizers.
- `json/`: the start of a JSON reader.
- `text.rs`, `index_map.rs`: text helpers and the contracts of the few calls
  into `std` and `indexmap` that are trusted rather than proved.

The tests under `tests/` run the compiled library.
