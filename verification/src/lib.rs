//! Usage tracking for AI coding tools: turning Cursor's usage replies into rate windows, and
//! keeping a line-per-record usage log from which consumption trends are read.
//!
//! The crate is pure: it decides what to ask for and what the replies mean. Reading files,
//! talking to servers and floating-point arithmetic happen around it.

pub mod timestamp;
pub mod binary64;
pub mod text;
pub mod usage_log;
pub mod location;
pub mod cursor;
pub mod error;
pub mod http;
