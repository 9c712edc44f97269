//! Directory traversal sessions over the `ignore` crate, with a named file-type
//! registry, callback hooks and a checked lifecycle.

pub mod engine;
pub mod entry;
pub mod error;
pub mod paths;
pub mod plan;
pub mod registry;
pub mod session;

pub use error::Error;
