//! The error type that every stage of the pipeline returns.

use vstd::prelude::*;

verus! {

/// Which stage of the pipeline failed.
#[derive(Clone, Copy, Debug, PartialEq, Eq, Structural)]
pub enum ErrorKind {
    /// The header/body boundary is missing or malformed.
    Format,
    /// The rendered header does not have the descriptor shape, or `path` is missing.
    Schema,
    /// A helper was invoked badly, a helper name is unknown, or a regular
    /// expression does not compile.
    Render,
    /// A target file or directory could not be read or written.
    Io,
    /// Anything outside the four pipeline stages (e.g. bad invocation).
    Other,
}

/// An error with a kind and a human-readable message.
#[derive(Debug)]
pub struct RustgenError {
    pub kind: ErrorKind,
    pub message: String,
}

pub type RustgenResult<T> = Result<T, RustgenError>;

impl RustgenError {
    /// A general error outside the four pipeline stages.
    pub fn new(message: &str) -> (r: Self)
        ensures
            r.kind == ErrorKind::Other,
            r.message@ == message@,
    {
        RustgenError { kind: ErrorKind::Other, message: message.to_owned() }
    }

    pub fn format_error(message: &str) -> (r: Self)
        ensures
            r.kind == ErrorKind::Format,
            r.message@ == message@,
    {
        RustgenError { kind: ErrorKind::Format, message: message.to_owned() }
    }

    pub fn schema_error(message: &str) -> (r: Self)
        ensures
            r.kind == ErrorKind::Schema,
            r.message@ == message@,
    {
        RustgenError { kind: ErrorKind::Schema, message: message.to_owned() }
    }

    pub fn render_error(message: &str) -> (r: Self)
        ensures
            r.kind == ErrorKind::Render,
            r.message@ == message@,
    {
        RustgenError { kind: ErrorKind::Render, message: message.to_owned() }
    }

    pub fn io_error(message: &str) -> (r: Self)
        ensures
            r.kind == ErrorKind::Io,
            r.message@ == message@,
    {
        RustgenError { kind: ErrorKind::Io, message: message.to_owned() }
    }

    /// The kind of the error.
    pub fn kind(&self) -> (k: ErrorKind)
        ensures
            k == self.kind,
    {
        self.kind
    }

    /// The human-readable message.
    pub fn message(&self) -> (m: &str)
        ensures
            m@ == self.message@,
    {
        self.message.as_str()
    }
}

} // verus!
