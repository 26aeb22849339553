//! Cursor: what its servers say of a user's usage, and how they are asked.

pub mod payload;
pub mod date;
pub mod api;
pub mod auth;
pub mod fetch;
