//! The ways in which a run can fail.

use crate::text::glue3;
use vstd::prelude::*;

verus! {

/// The kind of a failure.
#[derive(Clone, Copy, Debug, PartialEq, Eq, Structural)]
pub enum ErrorKind {
    /// An input path does not exist.
    NotFound,
    /// The storage daemon cannot be reached.
    ConnectionFailed,
    /// The daemon reported a failure, or its reply is not an identifier.
    UploadFailed,
    /// A file name holds no token id, or a reply is not text.
    InvalidInput,
    /// The local file system refused an operation.
    IoError,
}

/// A failure as mathematics.
pub struct FailureView {
    pub kind: ErrorKind,
    pub detail: Seq<char>,
}

/// A failure: its kind, and what caused it.
#[derive(Debug, PartialEq, Eq)]
pub struct Failure {
    pub kind: ErrorKind,
    pub detail: String,
}

impl View for Failure {
    type V = FailureView;

    open spec fn view(&self) -> FailureView {
        FailureView { kind: self.kind, detail: self.detail@ }
    }
}

impl Clone for Failure {
    fn clone(&self) -> (out: Self)
        ensures
            out@ == self@,
    {
        Failure { kind: self.kind, detail: self.detail.clone() }
    }
}

/// The name of a kind of failure.
pub open spec fn kind_name(kind: ErrorKind) -> Seq<char> {
    match kind {
        ErrorKind::NotFound => "not found"@,
        ErrorKind::ConnectionFailed => "connection failed"@,
        ErrorKind::UploadFailed => "upload failed"@,
        ErrorKind::InvalidInput => "invalid input"@,
        ErrorKind::IoError => "I/O error"@,
    }
}

impl Failure {
    /// A failure of the given kind and cause.
    pub fn new(kind: ErrorKind, detail: &str) -> (out: Failure)
        ensures
            out@ == (FailureView { kind, detail: detail@ }),
    {
        Failure { kind, detail: detail.to_owned() }
    }

    /// The failure in words: the name of its kind, a colon, and the cause.
    pub fn describe(&self) -> (out: String)
        ensures
            out@ == kind_name(self.kind) + ": "@ + self.detail@,
    {
        let name = match self.kind {
            ErrorKind::NotFound => "not found",
            ErrorKind::ConnectionFailed => "connection failed",
            ErrorKind::UploadFailed => "upload failed",
            ErrorKind::InvalidInput => "invalid input",
            ErrorKind::IoError => "I/O error",
        };
        glue3(name, ": ", self.detail.as_str())
    }
}

} // verus!
