//! Price comparison library: validation, formatting, parsing and the
//! in-memory account, product and camera state that the application drives.
pub mod error;
pub mod text;
pub mod utils;
pub mod auth;
pub mod backend;
pub mod settings;
pub mod scanner;
pub mod accounts;
pub mod table;
pub mod ranking;
pub mod models;
pub mod ocr;
pub mod services;
pub mod search;
pub mod alerts;
pub mod async_ops;
pub mod verification;
