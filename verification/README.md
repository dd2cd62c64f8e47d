# merlin

Merlin is a small dynamically typed language: a lexer, a parser, a compiler
to register-machine bytecode, an object model and an interpreter. This crate
is the language's library, written in Verus: each public function states what
it returns or changes in its `ensures`, over mathematical models of the data
(`Seq`, `Map`, `int`, and a view of each type), and Verus proves it.

## Layout

- `src/text.rs`, `src/lexer.rs` — character classes and the lexer.
- `src/parser.rs`, `src/errors.rs` — the parser, its errors and the text of
  error reports.
- `src/compiler.rs` — the bytecode and the compiler (`sc_*` state what each
  compiling routine produces).
- `src/objects.rs`, `src/ops.rs` — values and what the built-in types do with
  them (texts, hashes, equality, arithmetic, lists, strings, dictionaries).
- `src/interpreter.rs` — the register machine; `spec_run` states what a run
  gives, with calls nesting at most `fuel` deep.
- `src/types.rs` — type objects, slot inheritance, classes and their methods.
- `src/rc.rs`, `src/trc.rs` — reference counting (`Mrc`/`Weak`, and the
  biased `Trc`) over heaps of boxes owned by the caller.
- `src/program.rs` — a source text lexed, parsed, compiled and run.
- `app/` — the command-line program: reading files, timing runs, printing
  coloured error reports.

Values are held by value: a list, dictionary or function value is copied
where the language would share an object, which no program can observe
through the operations the compiler emits.

The compiler's table of names, the bytecode's table from variable slots to
names and a frame's variables are vectors. Slots are numbered densely from
0, so a frame's variables are indexed by slot. The name table keeps its
names in the order they were stored: several names can share one slot (a
function's parameters do), and the bytecode's table must say which name a
slot reports, which a hash map would leave to the order it is walked in.
Dictionaries, whose keys are hashes, keep a `hashbrown` map as their index.
