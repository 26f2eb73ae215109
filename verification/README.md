# Nyx

The verified middle of a compiler for Nyx, an imperative, statically typed language: from parsed
modules to a typed, monomorphised program, what an editor shows of it, and x86-64 assembly. The
library is written in Verus: what its functions return and change is stated in contracts that Verus
proves. Two kinds of function are apart. The trusted ones, named below, have contracts that are
believed; and `Arena::new` and `SourceArena::new` promise nothing, as a new arena holds nothing that
a contract could speak of.

- `src/ast.rs`: the syntax tree that the library starts from.
- `src/hir/`: names and types, inference, lowering of items, bodies and constants, interfaces,
  monomorphisation, and layouts. `growth.rs`, `body_growth.rs`, `program_growth.rs`, `scope_laws.rs`,
  `mono_laws.rs`, `inference_laws.rs`, `interface_laws.rs` and `layout_laws.rs` state what holds of
  all of it.
- `src/module/`: import paths, the files and the graph of modules, and which functions a program
  needs.
- `src/analysis.rs`: hover texts, definitions, inlay hints and symbols of an analysed program.
- `src/diagnostic.rs`: errors with their places, as text and as reports.
- `src/mir.rs`, `src/regalloc.rs`, `src/codegen/`: blocks of instructions and their assembly.
- `src/arena.rs`, `src/source_map.rs`, `src/text.rs`: storage, positions and texts.
- `app/`: files, the standard library's place, and running an analysis on them.

Three crates stand behind small trusted functions, whose contracts are not proved: `bumpalo` (arenas,
in `src/arena.rs`), `lasso` (interned names, in `src/hir/symbols.rs`) and `ariadne` (rendered reports,
in `src/diagnostic.rs`). Two functions of the standard library are taken the same way, in
`src/text.rs`.
