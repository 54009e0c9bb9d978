# lib

The front end of a compiler for a small systems language, with each step's
behaviour stated in contracts and proved with Verus.

- `src/syntax`: token types, the lexer (with a model of lexing in
  `lexer_model.rs` that the lexer is proved against), the syntax tree
  nodes with their constructors, and comparison of tokens, types,
  declarations and literals apart from positions.
- `src/parser`: parse errors and their messages; a token cursor and the
  grammar rules for type annotations, struct declarations, function
  headers, `break`/`continue`, empty statements, names, `self` and
  literals (expressions and statements in general are not parsed); and the semantic passes (flow control,
  name scoping, name resolving, scope resolving), each written as steps
  taken when the traversal enters or leaves a node.
- `src/typing`: the types of values, the operator tables, casts, sizes,
  and the type checks made for each kind of node.
- `src/compiler`: the C transpiler's text building and the text produced
  for each kind of node.
- `src/utils`: a map from names kept in order of insertion, decimal text,
  and helpers for tests.
- `app/main.rs`: reads `./resources/example.rs`, lexes it and prints the
  tokens.
