//! The ways a request can fail, and the HTTP status each one is answered with.

use vstd::prelude::*;

verus! {

/// Why a request could not be answered with a page.
#[derive(Clone, Copy, Debug, PartialEq, Eq, Structural)]
pub enum BlogError {
    /// The requested entry does not exist.
    NotFound,
    /// The entries directory or one of its files could not be read as text.
    Io,
    /// An entry file is empty, so it has no first line to take a title from.
    MissingTitle,
    /// The storage does not record when an entry file was created.
    Metadata,
    /// The requested entry name leaves the entries directory.
    PathTraversal,
}

impl BlogError {
    /// The status that answers a request which failed in this way.
    pub open spec fn spec_status_code(self) -> u16 {
        match self {
            BlogError::NotFound => 404,
            BlogError::PathTraversal => 400,
            BlogError::Io | BlogError::MissingTitle | BlogError::Metadata => 500,
        }
    }

    /// Whether the failure is the client's doing (a 4xx status) rather than the server's.
    pub open spec fn spec_is_client_error(self) -> bool {
        self == BlogError::NotFound || self == BlogError::PathTraversal
    }

    /// The HTTP status for this failure: 404 for a missing entry, 400 for a
    /// name that leaves the entries directory, 500 for everything else.
    #[verifier::when_used_as_spec(spec_status_code)]
    pub fn status_code(self) -> (code: u16)
        ensures
            code == self.spec_status_code(),
            400 <= code < 600,
            self.spec_is_client_error() <==> code < 500,
    {
        match self {
            BlogError::NotFound => 404,
            BlogError::PathTraversal => 400,
            BlogError::Io | BlogError::MissingTitle | BlogError::Metadata => 500,
        }
    }
}

} // verus!
