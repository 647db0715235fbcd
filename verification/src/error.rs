use vstd::prelude::*;

verus! {

/// The category of a failure, so that callers can branch on what went wrong
/// without matching on message text.
#[derive(Clone, Copy, PartialEq, Eq, Structural, Debug)]
pub enum ErrorKind {
    /// The path does not exist or does not denote a regular file.
    NotAFile,
    /// A read, write or delete on the filesystem failed.
    Io,
    /// An external tool could not be spawned or exited with a failure status.
    ToolInvocationFailed,
    /// A numeric token that a matched pattern requires could not be parsed.
    ParseFailed,
    /// Statistics were requested for a media kind with no defined metadata shape.
    UnsupportedMediaKind,
}

/// A failure surfaced at the library boundary: a category plus a
/// human-readable message.
#[derive(Debug)]
pub struct AppError {
    pub kind: ErrorKind,
    pub message: String,
}

impl AppError {
    /// A plain I/O-category error with the given message.
    pub fn new(message: &str) -> (r: Self)
        ensures
            r.kind == ErrorKind::Io,
            r.message@ == message@,
    {
        AppError { kind: ErrorKind::Io, message: message.to_owned() }
    }

    /// An error of an explicit category with the given message.
    pub fn with_kind(kind: ErrorKind, message: &str) -> (r: Self)
        ensures
            r.kind == kind,
            r.message@ == message@,
    {
        AppError { kind, message: message.to_owned() }
    }
}

} // verus!
