//! The classes of errors that the bridges report.

use vstd::prelude::*;

verus! {

/// What kind of error an operation met.
#[derive(Clone, Copy, Debug, PartialEq, Eq, Structural)]
pub enum ErrorKind {
    AlreadyExists,
    InvalidData,
    NotFound,
    Other,
    UnexpectedEof,
    WriteZero,
}

} // verus!
