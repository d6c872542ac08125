//! Verified core of a Model Context Protocol server for the LeRobot
//! dataset ecosystem on the Hugging Face Hub.

pub mod cli;
pub mod client;
pub mod error;
pub mod json;
pub mod search;
pub mod server;
pub mod size_format;
pub mod text;
pub mod types;
