# vacuum

A command-line tool that finds build artifacts and dependency caches
(`node_modules/`, `target/`, `__pycache__/`, `.venv/`, `vendor/`, `.gradle/`,
`build/`, `_build/`, files matched by `.gitignore`, ...) and deletes the ones
the user picks.

The logic is a Verus library, proved against its contracts:

- `src/walk.rs` — a directory walk that records what it gave back (each
  entry, each file length, each answer to whether a file exists) and the
  settings it was started with. What the disk holds is not stated anywhere;
  the scans state exactly what they make of whatever the walk gave back.
- `src/adapters/` — one adapter per ecosystem. For each, the contract says
  that the targets are, in walk order, exactly the entries of its kind within
  the root whose parent the disk answered holds the ecosystem's context file, skipping
  entries at or below a target already reported, and that the walk was taken
  to its end; no target lies inside another.
- `src/scanner.rs` — the merge of adapter results (one target per path, the
  first wins, sorted by path) and the single-walk streaming scan, whose
  contract states which target each walk step gives (adapter priority,
  context files looked up once per directory) and that, once the walk is
  over, every such target has been reported.
- `src/interactive/` — the states of the interactive workflow (adapter list,
  scanning, target list with sorting, filtering, visual ranges and the help
  overlay, deletion progress) and the decisions that lead from one screen to
  the next.
- `src/cleaner.rs` — the running tally of a deletion and its messages.
- `src/path.rs`, `src/text.rs`, `src/order.rs` — paths as `/`-separated
  strings, character helpers, and a verified stable merge sort.
- `src/layout.rs`, `src/sizes.rs` — terminal rectangles cut by `ratatui`'s
  layout, and byte counts as `bytesize` writes them.
- `src/disk.rs`, `src/inbox.rs` — the calls into `walkdir`, `ignore` and the
  standard library that read the disk or another thread.

`app/` holds the program around it: the command line (`clap`), the terminal
user interface (`ratatui`, `crossterm`), the progress bar (`indicatif`), the
printed reports, and the deletion itself.

The `ocaml` adapter (`_build/` beside `dune-project`, flag `--ocaml`) is on
by default, as the OCaml tests ask. So "All adapters are disabled" is only
printed when `--ocaml=false` is passed along with the other adapters'
flags set to false.
