use vstd::prelude::*;

verus! {

/// Why a transfer failed.  Every failure aborts the whole transfer at once;
/// the boundary surfaces the category together with a human-readable message.
pub enum Error {
    /// Filesystem open/create/read/write/flush failure.
    Io(String),
    /// DNS/connection/protocol failure or a mid-stream disconnect.
    Request(String),
    /// A declared or expected size was invalid.
    ContentLength(String),
    /// The upload response body failed to parse as the expected format.
    ResponseParse(String),
}

impl Error {
    /// The human-readable message carried by this error.
    pub open spec fn message_view(self) -> Seq<char> {
        match self {
            Error::Io(s) => s@,
            Error::Request(s) => s@,
            Error::ContentLength(s) => s@,
            Error::ResponseParse(s) => s@,
        }
    }

    /// The human-readable message, as surfaced across the boundary.
    pub fn message(&self) -> (m: &String)
        ensures
            m@ == self.message_view(),
    {
        match self {
            Error::Io(s) => s,
            Error::Request(s) => s,
            Error::ContentLength(s) => s,
            Error::ResponseParse(s) => s,
        }
    }
}

} // verus!
