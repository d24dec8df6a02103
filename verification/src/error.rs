use vstd::prelude::*;

verus! {

/// The three ways an operation against the external tool or the cache fails.
#[derive(Clone, Copy, Debug, PartialEq, Eq, Structural)]
pub enum ErrorKind {
    /// The external tool could not be spawned or its output could not be read.
    IoError,
    /// Output was not valid text or not in the expected structured shape.
    DecodeError,
    /// An expected identifier or record was absent.
    NotFoundError,
}

/// The unified failure type: a kind plus a human-readable message.
#[derive(Debug)]
pub struct Error {
    pub kind: ErrorKind,
    pub msg: String,
}

impl Error {
    pub fn io(msg: String) -> (r: Error)
        ensures
            r.kind == ErrorKind::IoError,
            r.msg@ == msg@,
    {
        Error { kind: ErrorKind::IoError, msg }
    }

    pub fn decode(msg: String) -> (r: Error)
        ensures
            r.kind == ErrorKind::DecodeError,
            r.msg@ == msg@,
    {
        Error { kind: ErrorKind::DecodeError, msg }
    }

    pub fn not_found(msg: String) -> (r: Error)
        ensures
            r.kind == ErrorKind::NotFoundError,
            r.msg@ == msg@,
    {
        Error { kind: ErrorKind::NotFoundError, msg }
    }
}

} // verus!
