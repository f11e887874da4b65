# ghciwatch

The verified core of a `ghci` session supervisor: it parses what GHC and GHCi print, keeps
track of the modules a session has loaded, decides how a session responds to file changes,
and keeps warnings across recompilations.

- `src/` is the library, written in Verus. Every function states its behaviour in `requires` /
  `ensures` over mathematical models (`Seq`, `Set`, views of each type), and Verus proves it.
  Properties that relate several calls are public proof functions (`lemma_*`).
- `tests/` runs the library on concrete inputs.
- `app/` is the plain Rust around it: the process environment, the file system, child
  processes and the terminal.

The calls into `shell-words`, `strip-ansi-escapes`, `owo-colors` and `supports-color` are made
through a few small trusted wrappers, each documented with what its contract claims.
