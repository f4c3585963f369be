//! Core library for ippo, a local-first habit tracker for the terminal.
//!
//! The verified library holds the domain rules: name validation, calendar
//! dates, data-environment configuration, diagnostics text, the identity guard
//! of the database, the read-only rules of the application core and the
//! dashboard's state machine. Terminal drawing, SQLite access, the process
//! environment and the command line live around it.

pub mod text;
pub mod date;
pub mod habit;
pub mod config;
pub mod diagnostics;
pub mod storage;
pub mod app;
pub mod tui;
pub mod clock;
