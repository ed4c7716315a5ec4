# gwt-sweep

`gwt-sweep` cleans up stale Git worktrees. It is safe by default: it runs dry
unless `--force` is given, protects the current, locked and dirty worktrees,
and deletes a local branch only when asked to and only once that branch is
known to be merged into the deletion base.

## Layout

- `src/` is the library, verified with Verus. It holds the decisions of a
  sweep, each a function from plain values (the outcomes of the Git and
  filesystem reads it depends on) to plain values, with a contract:
  - `duration`: parsing and formatting of `--older-than` durations;
  - `cli`, `config`: the arguments and the configuration derived from them;
  - `globs`: the `--branch` and `--*-path` filters, compiled and matched by
    the `globset` crate;
  - `git`: repository discovery, merge-base resolution, ancestry and
    branch-deletion checks;
  - `sweep`: which worktrees are selected, filtered, protected, removed;
  - `report`: the report, its summary and its text form;
  - `text`: string helpers.
- `app/` is the command-line program: argument parsing (clap), the Git reads
  and writes (git2), the filesystem scan, and JSON output (serde). It makes
  the reads that the library's decisions ask for and carries out what they
  decide.
- `tests/` exercises the library on concrete values.
