# valua

A Lua 5.5 to Lua 5.1 / LuaJIT transpiler whose library is verified with Verus.

- `src/` — the library: lexer (`lexer`, `token`), parser (`parser`, with the grammar it accepts stated in `grammar`), syntax
  tree and its model (`ast`), lints (`lint`, `const_mutation`,
  `unsupported`), transformations (`transformer`, `walk`, `strip`, `close`,
  `passes`, `polyfills`), the emitter (`codegen`) and the pipeline
  (`compile`), and the integer and text side of the benchmark harness
  (`bench`). Each function states its result over a mathematical model of
  the tree and the text.
- `app/` — the command-line program: files, terminal rendering of
  diagnostics, argument parsing, and the benchmark runner (`valua bench`),
  which spawns the interpreters, times them and writes the reports.
- `tests/` — tests of the library.
