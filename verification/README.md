# mish

The front end of a small C-like language, as a Verus-verified library:

- `lexer` — the token grammar (fixed strings, identifiers, integer, float and
  string literals, white space between them) and `tokenize`, proved to take
  the longest match at each position, a fixed string winning over an
  identifier of the same length, and to stop at the end of the text or at the
  first text that no token matches.
- `parser` — a recursive-descent parser for declarations, functions, types
  and operator-precedence expressions, with error reporting and recovery.
  `grammar` states what every parsing step does as functions on the token
  sequence; `progress` proves how steps move and when they return.
- `printer` — writes syntax trees as indented text; `text` holds the number,
  span, indentation and trimming pieces it uses.
- `error`, `node`, `token` — the data types and their plain-value views.

`app/` holds the command-line program: it reads a file, tokenizes and parses
it, and reports progress and the time taken.
