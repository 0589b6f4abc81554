//! What the command line decides of the configuration.

pub mod config;

pub use config::Config;
