//! The sources of the current instant and of the active time zone.
//!
//! Application behaviour receives the current time through these sources, so
//! that nothing reads the process clock throughout the codebase and tests can
//! fix the day. The executable reads the system clock and zone through them.

use vstd::prelude::*;

verus! {

/// The process clock.
#[derive(Debug, Clone, Copy, Default)]
pub struct SystemClock;

/// The system's configured IANA time zone.
#[derive(Debug, Clone, Copy, Default)]
pub struct SystemTimeZone;

} // verus!
