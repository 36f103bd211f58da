# movefile

Moving files with progress reports and cancellation, trashing them, listing
volumes and exchanging file lists through the clipboard.

- `src/` is the verified library (Verus): the registry of cancellable
  operations, the accounting done on each progress report, the decisions
  taken after each attempted move, long-path prefixes, wide-string encoding
  and decoding, the clipboard's `DROPFILES` block, and the reading of file
  attributes and volume names from what the system returns.
- `app/` performs the system calls (Windows through the `windows` crate, GIO
  on Linux) and hands their results to the library.
- `tests/` runs the library on concrete values.
