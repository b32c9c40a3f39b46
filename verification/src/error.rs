//! Errors that a command can end in.
use vstd::prelude::*;

verus! {

/// Why a command failed.
#[derive(Debug)]
pub enum Error {
    /// The request does not fit the data it names.
    BadCommand(String),
    /// The operation could not be carried out.
    Operation(String),
}

impl Error {
    /// The message that describes the error.
    pub open spec fn message(&self) -> Seq<char> {
        match self {
            Error::BadCommand(s) => "Bad command: "@ + s@,
            Error::Operation(s) => "Operation error: "@ + s@,
        }
    }

    /// The message that describes the error.
    pub fn to_string(&self) -> (s: String)
        ensures
            s@ == self.message(),
    {
        match self {
            Error::BadCommand(m) => {
                let mut s = String::from_str("Bad command: ");
                s.append(m.as_str());
                s
            },
            Error::Operation(m) => {
                let mut s = String::from_str("Operation error: ");
                s.append(m.as_str());
                s
            },
        }
    }
}

} // verus!
