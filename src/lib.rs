pub mod config;
pub mod format;
pub mod targets;
pub mod matcher;
pub mod progress;
pub mod keys;
pub mod entropy;
pub mod search;
