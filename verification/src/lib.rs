//! The engine of an emergency backup: it mirrors a directory tree to a
//! destination, once, under a ceiling on the files held open.
//!
//! The engine computes and decides; it touches no file itself. Its driver
//! takes a snapshot of the source ([`tree`]), lets the engine count what
//! the filter accepts ([`enumerator`]) and plan the mirroring
//! ([`planner`]), creates the planned directories, and then performs the
//! copies that the executor starts ([`executor`]), handing each outcome
//! back. [`backup`] ties these steps together; [`agreement`] states how
//! counting, planning and copying fit.
//!
//! The remaining modules serve the program around the engine: its
//! configuration, its logs, what it tells the user, and how the user
//! triggers it with keys and clicks.

pub mod agreement;
pub mod backup;
pub mod beeper;
pub mod buttons_and_clicks_pattern_recognizer;
pub mod config;
pub mod enumerator;
pub mod executor;
pub mod filter;
pub mod limiter;
pub mod limits;
pub mod logger;
pub mod notification_popup;
pub mod planner;
pub mod progress;
pub mod tree;
