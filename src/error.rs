//! The library's error kinds.

use vstd::prelude::*;
use vstd::string::*;

verus! {

/// What can go wrong while a repository is synchronised and checked. Each
/// kind carries a message.
#[derive(Debug, Clone)]
pub enum CompliantError {
    Io(String),
    RepositoryNotFound(String),
    BuildDirNotFound(String),
    FetchError(String),
    ObjectParseError(String),
    AbiCheckError(String),
    SerializationError(String),
    VariantsFetchError(String),
    NetworkError(String),
    Other(String),
}

impl CompliantError {
    /// The message that the error carries.
    pub open spec fn detail(&self) -> Seq<char> {
        match self {
            CompliantError::Io(m) => m@,
            CompliantError::RepositoryNotFound(m) => m@,
            CompliantError::BuildDirNotFound(m) => m@,
            CompliantError::FetchError(m) => m@,
            CompliantError::ObjectParseError(m) => m@,
            CompliantError::AbiCheckError(m) => m@,
            CompliantError::SerializationError(m) => m@,
            CompliantError::VariantsFetchError(m) => m@,
            CompliantError::NetworkError(m) => m@,
            CompliantError::Other(m) => m@,
        }
    }

    /// The heading that introduces the message of this kind.
    pub open spec fn heading(&self) -> Seq<char> {
        match self {
            CompliantError::Io(_) => "IO error: "@,
            CompliantError::RepositoryNotFound(_) => "Repository not found: "@,
            CompliantError::BuildDirNotFound(_) => "Build directory not found in repository: "@,
            CompliantError::FetchError(_) => "Failed to fetch repository: "@,
            CompliantError::ObjectParseError(_) => "Failed to parse object file: "@,
            CompliantError::AbiCheckError(_) => "Failed to check ABI compatibility: "@,
            CompliantError::SerializationError(_) => "Failed to serialize JSON: "@,
            CompliantError::VariantsFetchError(_) => "Failed to fetch variants: "@,
            CompliantError::NetworkError(_) => "Network error: "@,
            CompliantError::Other(_) => "Unknown error: "@,
        }
    }

    /// The human-readable text: the kind's heading followed by the message.
    pub fn to_string(&self) -> (r: String)
        ensures
            r@ == self.heading() + self.detail(),
    {
        let (head, m) = match self {
            CompliantError::Io(m) => ("IO error: ", m),
            CompliantError::RepositoryNotFound(m) => ("Repository not found: ", m),
            CompliantError::BuildDirNotFound(m) => ("Build directory not found in repository: ", m),
            CompliantError::FetchError(m) => ("Failed to fetch repository: ", m),
            CompliantError::ObjectParseError(m) => ("Failed to parse object file: ", m),
            CompliantError::AbiCheckError(m) => ("Failed to check ABI compatibility: ", m),
            CompliantError::SerializationError(m) => ("Failed to serialize JSON: ", m),
            CompliantError::VariantsFetchError(m) => ("Failed to fetch variants: ", m),
            CompliantError::NetworkError(m) => ("Network error: ", m),
            CompliantError::Other(m) => ("Unknown error: ", m),
        };
        let mut s = String::from_str(head);
        s.append(m.as_str());
        s
    }
}

} // verus!
