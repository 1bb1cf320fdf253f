# ide_ui

The verified core of a visual block-programming editor, written in Verus.

Blocks with typed ports are placed on a canvas and wired together; the
library decides which wirings are allowed, keeps the connection graph and its
indices, orders blocks for code generation, keeps undo/redo history, lists
the block library, builds generated code line by line, and drives the steps
of running a generated program. Every public function carries a contract that
Verus proves, and the laws that hold across functions (compatibility is
symmetric, an accepted data connection never closes a cycle, undo and redo
invert each other, generated ids are unique, ...) are proof functions.

Layout:

- `src/` — the library. `types` (port types and compatibility), `graph`
  (connections, indices, cycle check, topological order), `canvas` (blocks
  on the canvas and the canvas's decisions), `history`, `blocks` (block data
  and the library), `codegen`, `execution`, `ide` (shortcuts), the panel
  states (`output`, `sidebar`, `toolbar`, `settings`, `code_preview`,
  `widgets`), `text` (numerals, joining, line counts) and `persistent`, the
  trusted contracts of the `im` collections the library is built on.
- `tests/` — tests of the library on concrete values.
- `app/` — the editor program: windows, drawing, pointer geometry, the
  theme, and the file and process work of running code, using `druid`.
