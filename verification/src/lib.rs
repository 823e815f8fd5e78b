pub mod json;
pub mod text;
pub mod clock;
pub mod error;
pub mod serde_calls;
pub mod client;
pub mod importer;
pub mod config;
pub mod account;
pub mod cli;
pub mod commands;
pub mod readme;
