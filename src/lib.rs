//! Locating a headless office engine and driving it to turn word-processing
//! documents into PDF files.
//!
//! Two parts, both free of I/O:
//! - discovery (`locator`, `discover`, `platform`): an ordered search across
//!   the system registry, well-known install locations, the search path and
//!   a bundled archive, written as a state machine whose driver performs each
//!   request (a file check, a lookup, a directory listing, an extraction) and
//!   hands back the reply;
//! - batch conversion (`batch`, `path`): per-document destinations and
//!   progress notifications, in order, with failures reported per item.
//!
//! `manager` ties them together: it keeps the engine path found last, builds
//! the engine's command line and judges its exit.

pub mod batch;
pub mod discover;
pub mod locator;
pub mod manager;
pub mod path;
pub mod platform;
