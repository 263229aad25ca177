# cargo-multivers

`cargo multivers` builds a package once for every CPU of a target and bundles
the builds into a single executable. When that executable is started, it runs
the build that makes the most of the CPU it finds itself on.

## Layout

- `src/` is the library. What is built, how it is packed and what happens next is
  decided here, and every function has a contract. Verus proves all of them but those of the wrappers
  that are named below:
  - `rustc`, `lines`, `text`: the questions put to the compiler, and how its
    answers are read;
  - `target`, `cli`, `plan`: which CPUs are built for, and with which flags;
  - `cargo`, `session`, `outcome`: the runs of cargo, one step at a time, and what
    a whole session comes to;
  - `builds`, `format`, `pack`: the order of the builds and the form in which they
    are handed to the runner;
  - `runner`: the crate that is built around the packed builds;
  - `launch`, `trace`: how the runner starts a build, one step at a time, and what
    a whole launch does;
  - `print`: the CPU features that a target supports.
- `app/` is the program: the command line, processes and files. It performs the
  actions that the library asks for and reports what came of them.
- `tests/` runs the library on given values.

## Running

The sources of the runner (`Cargo.toml`, `main.rs`, `build.rs`) are read from the
directory that the variable `CARGO_MULTIVERS_RUNNER_SOURCES` names.

## What is trusted

The functions marked `#[verifier::external_body]` call `bincode`, `bzip2`,
`flate2`, `humansize`, `target-lexicon` and `String::from_utf8`. Their contracts
are believed, not proved; the comment above each says what is claimed.
