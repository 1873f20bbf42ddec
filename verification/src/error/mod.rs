//! The failures that the engine reports.

pub mod types;

pub use types::{Error, ErrorKind, ErrorModel};
