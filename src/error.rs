//! Errors of the document model.
use vstd::prelude::*;

verus! {

/// Why a block of content could not be rendered.
#[derive(Debug)]
pub enum Error {
    /// The content's mime kind is not one that can be rendered; it holds the kind.
    UnsupportedContentType(String),
}

/// The message of an unsupported content kind.
pub open spec fn unsupported_message(mime: Seq<char>) -> Seq<char> {
    "Content type is not supported: "@ + mime
}

pub open spec fn error_message(e: Error) -> Seq<char> {
    match e {
        Error::UnsupportedContentType(m) => unsupported_message(m@),
    }
}

impl Error {
    /// The error as a sentence for a reader.
    pub fn message(&self) -> (r: String)
        ensures
            r@ == error_message(*self),
    {
        match self {
            Error::UnsupportedContentType(m) => {
                let mut s = String::from_str("Content type is not supported: ");
                s.append(m.as_str());
                s
            },
        }
    }
}

} // verus!
