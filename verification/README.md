# oneway

The compiler front end and tools of the Oneway language, written in Verus:
the library's functions carry contracts that Verus proves, except five small
wrappers around std (`String::push`, `char::is_alphabetic`,
`char::is_alphanumeric`, `char::to_lowercase` and `{:?}` of a string),
whose contracts are trusted; each says so in its doc comment.

## Layout

- `src/lexer` — the scanner: source text to tokens, specified by a
  recursive `lex` function over the characters.
- `src/syntax`, `src/parser` — the grammar's tokens and tree, the grammar as
  spec functions, and a recursive-descent parser proved to compute it;
  literal readers with round-trip laws.
- `src/front.rs` — scanning and parsing composed, as the commands run them.
- `src/ast.rs`, `src/checker.rs` — the checker's tree and the checker.
- `src/codegen` — the Rust generator, with the generated text as a spec.
- `src/loader.rs`, `src/cli.rs` — the decisions of the module loader and the
  command line: file names of `use`, shipped bindings, command words,
  `upgrade` arguments, release tags, shell words, manifests, error reports.
- `src/lsp.rs` — the language server's symbol index, word lookup and
  diagnostics.
- `src/lints` — the documented lint suite: each lint's name, level and
  description, and the checks of the sorting, newtype and naming lints over
  plain models of the items they inspect.
- `app/` — the `oneway` binary and the `oneway-lsp` server: file and process
  I/O and the protocol, around the library.
- `tests/` — tests of the library on concrete values.
