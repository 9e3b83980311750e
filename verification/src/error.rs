//! The error taxonomy that every operation surfaces to its caller.
use vstd::prelude::*;

verus! {

/// Classified outcome of a failed operation. Transport failures carry a
/// short description of the underlying network or HTTP fault; server
/// rejections carry the server's messages joined in their original order.
#[derive(Debug, Clone)]
pub enum Error {
    /// The underlying network or HTTP exchange failed.
    Transport(String),
    /// A media operation's response could not be parsed into the expected
    /// shape, or a chunk or finalize step returned an unexpected status.
    BadMedia,
    /// A response that should have carried user data did not.
    NoUserData,
    /// The server's error messages included the literal rate-limit phrase.
    TooManyRequests,
    /// One or more server-reported rejection reasons, joined in order.
    ApiError(String),
    /// A response carried no data and no recognizable error information.
    Unknown,
}

} // verus!
