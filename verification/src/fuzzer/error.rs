use vstd::prelude::*;
use vstd::string::StringExecFns;

verus! {

/// Why a call has no result.
#[derive(Debug, PartialEq, Eq)]
pub enum Error {
    Unknown { message: String },
}

impl View for Error {
    type V = Seq<char>;

    /// The message.
    open spec fn view(&self) -> Seq<char> {
        match self {
            Error::Unknown { message } => message@,
        }
    }
}

impl Error {
    /// An error with a fixed message.
    pub fn unknown(message: &str) -> (error: Error)
        ensures
            error@ == message@,
    {
        Error::Unknown { message: message.to_owned() }
    }

    /// An error whose message is `prefix` followed by `detail`.
    pub fn with_detail(prefix: &str, detail: &str) -> (error: Error)
        ensures
            error@ == prefix@ + detail@,
    {
        Error::Unknown { message: prefix.to_owned().concat(detail) }
    }
}

} // verus!
