//! Reviewing submitted prices and keeping a record of each review.
pub mod manager;
