# ippo

ippo is a local-first habit tracker for the terminal. This crate holds its
rules as a Verus-verified library and wraps them in an ordinary Rust
executable.

- `src/` is the verified library: name validation (`habit`), calendar dates
  (`date`), profile and database-path resolution (`config`), the `doctor`
  report (`diagnostics`), the data-environment identity guard (`storage`),
  the read-only rules of the viewed day (`app`), and the dashboard
  (`tui`): layout breakpoints, routine groups, the key-handling state machine
  and the text it shows.
- `app/` is the executable: the command line, the process environment,
  SQLite storage and migrations, the clock and time zone, and terminal
  drawing.
- `tests/` exercises the library.
