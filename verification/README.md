# rat

`rat fep <command>` runs a shell command in every subfolder of a working folder in parallel;
`rat cfg ...` manages a small configuration (default folder, ignored folders, timeout).

Layout:

- `src/` — the verified library (Verus):
  - `text.rs`: character-level string work — substring search, equality,
    joining, decimal parsing as `str::parse` does it, and decimal formatting.
  - `dirs.rs`: choice of the working folder and the ignore/skip/only directory filters,
    over a whole listing or one directory at a time.
  - `config.rs`, `timeout.rs`: the configuration and the timeout settings.
  - `cli.rs`: a parsed command line and option lookup.
  - `fep.rs`: timeout resolution and the plan of a `fep` run.
  - `process.rs`: the decisions of a single run (timeout, polling) and its report text.
  - `help.rs`: the help text.
- `app/` — the binary: file, process, thread and terminal work, calling the library.
- `tests/` — tests of the library.
