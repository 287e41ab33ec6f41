//! Background tasks: what they are, their progress, and the bookkeeping of
//! a queue of them.
pub mod progress;
pub mod operations;
pub mod manager;
pub mod executor;
