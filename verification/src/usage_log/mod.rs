//! The usage log: one record per line, each a sample of how much of a provider's quota was used.

pub mod sample;
pub mod history;
pub mod reading;
pub mod trend;
pub mod run;
