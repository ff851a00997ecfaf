use vstd::prelude::*;

verus! {

/// The kinds of failure that a request can end in.
#[derive(Clone, Copy, Debug, PartialEq, Eq, Structural)]
pub enum ErrorKind {
    /// The token was missing or did not authenticate.
    Unauthorized,
    /// The requester lacks the permission for this action or instance.
    Forbidden,
    /// The instance, file or directory does not exist.
    NotFound,
    /// A precondition of the request was violated.
    BadRequest,
    /// The path would leave the instance root, or cannot be read as a path.
    MalformedPath,
    /// The target is a protected file type.
    ProtectedResource,
    /// The filesystem or the server process failed.
    IOFailure,
}

/// A typed failure with a human-readable detail.
#[derive(Clone, Debug)]
pub struct Error {
    pub kind: ErrorKind,
    pub detail: String,
}

/// `r` is a failure of kind `k`.
pub open spec fn fails_with<T>(r: Result<T, Error>, k: ErrorKind) -> bool {
    r matches Err(e) && e.kind == k
}

impl Error {
    pub fn new(kind: ErrorKind, detail: &str) -> (r: Error)
        ensures
            r.kind == kind,
            r.detail@ == detail@,
    {
        Error { kind, detail: detail.to_owned() }
    }
}

} // verus!
