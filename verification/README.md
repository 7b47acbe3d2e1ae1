# equilibrium-ffi

A polyglot FFI toolkit: it detects the language of a source file, builds the
compiler command that lowers it to a C ABI artifact, reads C headers, and
generates Rust bindings and import wrappers for other languages. The `eq`
tool checks, installs and runs the compilers it needs.

## Layout

- `src/` — the library, verified with Verus. Each public function carries a
  contract over a mathematical model of its inputs and outputs, and the
  properties that span several functions are stated as `law_*` proof
  functions next to the code they are about.
  - `text` — character-level text operations (`str::lines`, trimming,
    splitting, ordering) and their specifications.
  - `detector` — languages, extensions, compiler names and command lines.
  - `c_header` — the line-oriented C header reader and the C-to-Rust type map.
  - `bindings`, `imports` — Rust bindings and consumer wrappers.
  - `exports` — export discovery from source text and configuration targets.
  - `compiler`, `limits`, `loader` — compiler arguments and their safety
    checks, size limits, load options and errors.
  - `scanner` — exclude patterns, main-header choice, generated module files.
  - `toolchain` — the compiler catalogue and package-manager decisions of `eq`.
- `app/` — the file-system, process and terminal side: reading files,
  running compilers and package managers, walking directories, and the `eq`
  command line.
- `tests/` — tests of the library on concrete inputs.
