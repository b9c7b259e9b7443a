# paths

Absolute and relative UTF-8 paths (`AbsPathBuf`, `AbsPath`, `RelPathBuf`,
`RelPath`) over `camino`, and the rules by which the Rust toolchain's
executables are looked up.

- `src/utf8.rs`: the calls into `camino`, each behind a trusted wrapper, and
  the names the contracts use for what `camino` computes (Unix path model).
- `src/normalize.rs`: lexical normalization of a path, verified to give
  the text of the normal form of its components, with the laws of that
  normal form (no `.` or `..`, idempotence, `..` going up one level).
- `src/abs_path.rs`, `src/rel_path.rs`: the path types, whose absoluteness
  or relativeness is a type invariant.
- `src/toolchain.rs`: tool names, lookup orders, and the candidate paths of
  a binary.
- `app/lib.rs`: what needs the file system, the environment, std's OS path
  types or process spawning.

The contracts state the Unix path model: a path is absolute when it starts
with `/`, and no component is a Windows prefix.

The `prime-caches` command of the language server is not part of this
crate: it consists of calls into the server's own crates (project loading,
the IDE database, the virtual file system), which are not available here.
