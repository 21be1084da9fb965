use vstd::prelude::*;

verus! {

/// The category of an [`Error`].
#[derive(Debug, Clone, Copy, PartialEq, Eq, Structural)]
pub enum ErrorKind {
    /// A parameter was incorrect.
    InvalidInput,
    /// Data was not valid for the operation.
    InvalidData,
    /// The end of a file was reached before the request was satisfied.
    UnexpectedEof,
    /// A write reported that zero bytes were written.
    WriteZero,
    /// The operating system reported an error code.
    Os,
    /// Any other failure.
    Other,
}

/// An error of this library: a kind, a fixed message and, for errors
/// reported by the operating system, the raw error code.
#[derive(Debug, Clone, Copy)]
pub struct Error {
    kind: ErrorKind,
    message: &'static str,
    os_code: i32,
}

/// Result type of this library.
pub type Result<T> = core::result::Result<T, Error>;

impl Error {
    /// Creates an error of the given kind with a message.
    pub fn new(kind: ErrorKind, message: &'static str) -> (e: Error)
        ensures
            e.spec_kind() == kind,
            e.spec_message() == message@,
    {
        Error { kind, message, os_code: 0 }
    }

    /// Creates an error of kind [`ErrorKind::Other`].
    pub fn other(message: &'static str) -> (e: Error)
        ensures
            e.spec_kind() == ErrorKind::Other,
            e.spec_message() == message@,
    {
        Error { kind: ErrorKind::Other, message, os_code: 0 }
    }

    /// Creates an error from a raw operating-system error code.
    pub fn from_raw_os_error(code: i32) -> (e: Error)
        ensures
            e.spec_kind() == ErrorKind::Os,
            e.spec_os_code() == code,
    {
        Error { kind: ErrorKind::Os, message: "", os_code: code }
    }

    pub closed spec fn spec_kind(&self) -> ErrorKind {
        self.kind
    }

    pub closed spec fn spec_message(&self) -> Seq<char> {
        self.message@
    }

    pub closed spec fn spec_os_code(&self) -> i32 {
        self.os_code
    }

    /// The kind of this error.
    pub fn kind(&self) -> (k: ErrorKind)
        ensures
            k == self.spec_kind(),
    {
        self.kind
    }

    /// The message of this error (empty for operating-system errors).
    pub fn message(&self) -> (m: &'static str)
        ensures
            m@ == self.spec_message(),
    {
        self.message
    }

    /// The raw operating-system error code, for errors of kind [`ErrorKind::Os`].
    pub fn raw_os_error(&self) -> (c: Option<i32>)
        ensures
            c == (if self.spec_kind() == ErrorKind::Os { Some(self.spec_os_code()) } else { None::<i32> }),
    {
        match self.kind {
            ErrorKind::Os => Some(self.os_code),
            _ => None,
        }
    }
}

} // verus!
