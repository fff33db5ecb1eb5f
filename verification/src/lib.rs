//! Mirage Fit: the verified core of an image remix service.
//!
//! The library decides what the service does: which uploads it accepts,
//! how images are named and found, how prompts and requests for the image
//! model are built, how a model answer is read, and how errors are answered.
//! The program around it performs the file, network and clock operations and
//! hands the results to these functions.

pub mod config;
pub mod error;
pub mod file_manager;
pub mod gemini;
pub mod handlers;
pub mod models;
pub mod ordering;
pub mod server;
pub mod static_files;
pub mod text;
pub mod time;
pub mod validation;

pub use error::{Error, Result};
