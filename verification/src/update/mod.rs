//! Looking for updates.
pub mod client;
