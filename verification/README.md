# smart-disk-cleaner

A local storage governance assistant: it scans a directory tree, finds
large, temporary, archived, empty and duplicate files, explains which of
them are safe or risky to change, and carries out cleanup and migration
with rehearsals (dry runs) and visible rollback.

## Layout

- `src/` — the library, written in Verus. Its public functions carry
  contracts that Verus proves: the classification rules, the analysis of a
  scan, duplicate grouping, cleanup and migration suggestions, the safety
  bounds that keep remote advice from overriding local rules, the checks
  and logs of cleanup, migration and registry changes, and their rollback.
  Proof functions named `law_*` state properties that span several
  operations (for instance that a rollback restores what a change
  replaced).
  Paths are read as Windows reads them: `/` and `\` both separate
  components, a drive such as `C:` and a root come first, and a `.` inside
  a path is no component.
- `tests/` — tests of the library on concrete values.
- `app/` — the command-line program around the library: walking the file
  system, reading and hashing files, talking to a remote model, moving
  files and writing JSON reports.

The calls into `globset`, `blake3` and `humansize` are made from the
library through a few small trusted functions whose contracts are
documented next to them.
