//! Application settings.
pub mod config;
