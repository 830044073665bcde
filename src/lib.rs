//! A pausable interval timer: the clock formatter, the countdown engine that
//! reacts to ticks and control lines, the status-bar protocol it drives, and
//! the sprint orchestrator that sequences work and rest periods.
pub mod countdown;
pub mod sprint;
pub mod status;
pub mod time;
