# bullang

A verified library for Bullang, a structured functional language whose
projects are trees of ranked folders (war, theater, battle, strategy, tactic,
skirmish) and whose functions are chains of pipes.

- `src/` is the library, verified with Verus: the syntax tree (`ast`), the
  grammar as functions on characters (`grammar`) and the parser built on it
  (`parser`), the structural rules of a project (`validator`, with
  `validator/inventory`), the type checker (`typecheck`), the builtin library
  (`stdlib`), the Rust emitter (`codegen`), project scaffolding (`init`), the
  build of a whole tree (`tree_build`), test harnesses (`harness`), paths
  (`paths`), and what the command-line tool decides and prints (`commands`).
  A project on disk is modelled by `project::Folder`; the tool reads it and
  hands it to the library.
- `tests/` runs the library on concrete inputs.
- `app/` is the `bullang` command-line tool: arguments, the file system and
  processes.
