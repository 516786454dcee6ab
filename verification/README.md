# coldtrace

`coldtrace run [--name NAME] -- CMD...` runs a child command, captures its
stdout and stderr under `runs/<run-id>/`, and writes what it measured to
`record.json`.

Layout:

- `src/` — the verified library (Verus):
  - `label.rs` — run labels: sanitizing names, labels from command lines.
  - `timestamp.rs` — run ids: the UTC start timestamp and the label.
  - `run_dir.rs` — choosing a fresh run directory name after collisions.
  - `record.rs` — the typed record of a direct run.
  - `runner.rs`, `cli.rs` — the run request and the parsed command line.
  - `text.rs` — character classes, ASCII case folding, decimal numerals.
- `app/` — the program: argument parsing (clap), the process, the files,
  the clock, and writing the record as JSON (serde).
- `tests/` — tests of the library.
