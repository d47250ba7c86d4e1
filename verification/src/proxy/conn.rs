//! Handling of one accepted connection.

pub mod common;
pub mod mitm;
pub mod stream;
