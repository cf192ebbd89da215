# organize

Organizes downloaded TV and movie files into media-server friendly folders
(`Show (Year)/Season NN/` and `Movie (Year)/`), with `scan` and `doctor` reports.

The library in `src/` is verified with Verus; `app/` is the command-line front end
that does the file system, terminal, network and JSON work around it.

Library modules:

- `parser`: release names to title, year, season and episode.
- `config`: configuration layers (global, local, explicit; later wins) and command-line
  overrides.
- `scanner`: file names, extensions and media classes of scanned files.
- `planner`: the plan of file operations, with conflicts against a snapshot of what
  exists on disk.
- `resolve`: folder fallbacks, per-folder season/episode answers, per-title years.
- `preview`, `preflight`, `executor`: what is shown, checked and tallied around a run.
- `report`, `doctor`: the `scan` and `doctor` reports.
- `paths`, `order`, `text`: path strings, string order and grouping, text helpers.
- `laws`: properties of the library as a whole.

The tests under `tests/` exercise the library.
