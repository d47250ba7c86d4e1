//! Decision core of a transparent, intercepting TLS proxy.
//!
//! Everything in this crate is free of I/O: sockets, threads, files and TLS
//! sessions are driven by the embedding program, which feeds the outcomes of
//! its I/O into the state machines, codecs and stores defined here and
//! performs the actions they hand back.

pub mod bytemap;
pub mod bytes;
pub mod cclone;
pub mod cli;
pub mod error;
pub mod net;
pub mod pool;
pub mod proxy;
pub mod text;
