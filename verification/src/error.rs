//! Transport-level errors surfaced by the proxy core.

use vstd::prelude::*;

verus! {

/// Classification of a transport error.
#[derive(Clone, Copy, Debug, PartialEq, Eq, Structural)]
pub enum ErrorKind {
    /// A non-blocking operation had nothing to do.
    WouldBlock,
    /// The peer closed the transport (a read returned zero bytes).
    WriteZero,
    /// Fewer bytes were available than the frame being read requires.
    UnexpectedEof,
    Interrupted,
    ConnectionRefused,
    NotConnected,
    Unsupported,
    InvalidInput,
    InvalidData,
    OutOfMemory,
    BrokenPipe,
    /// Any error of the platform that the core does not tell apart.
    Other,
}

/// A transport error: its kind and a description for the log.
#[derive(Clone, Debug)]
pub struct Error {
    pub kind: ErrorKind,
    pub message: String,
}

/// Mathematical content of an [`Error`].
pub struct ErrorView {
    pub kind: ErrorKind,
    pub message: Seq<char>,
}

impl View for Error {
    type V = ErrorView;

    open spec fn view(&self) -> ErrorView {
        ErrorView { kind: self.kind, message: self.message@ }
    }
}

impl Error {
    /// Builds an error of the given kind carrying `message`.
    pub fn new(kind: ErrorKind, message: &str) -> (e: Error)
        ensures
            e.kind == kind,
            e.message@ == message@,
    {
        Error { kind, message: message.to_owned() }
    }

    /// The kind of this error.
    pub fn kind(&self) -> (k: ErrorKind)
        ensures
            k == self.kind,
    {
        self.kind
    }

    /// Whether this error marks the orderly end of a connection; such errors
    /// are suppressed where a worker finishes a connection.
    pub fn is_normal_close(&self) -> (b: bool)
        ensures
            b == (self.kind == ErrorKind::WriteZero),
    {
        self.kind == ErrorKind::WriteZero
    }
}

} // verus!
