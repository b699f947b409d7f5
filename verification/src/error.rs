//! The outcomes an operation can report besides success. Denial of
//! authorization is kept distinct from authentication failure and from
//! not-found, so callers can tell them apart.

use vstd::prelude::*;

verus! {

/// Why an operation refused or failed.
#[derive(Clone, Copy, Debug, PartialEq, Eq, Structural)]
pub enum Error {
    /// A point lookup by id or name found no row.
    NotFound,
    /// The claimed secret does not match the stored digest.
    AuthenticationDenied,
    /// The acting user's flag for the requested capability is false.
    AuthorizationDenied,
    /// The operation collides with state that already exists.
    Conflict,
    /// The credential primitive failed (malformed digest or hashing fault).
    Fault,
}

/// Failure to hand out a store connection. The connection machinery
/// itself lives outside this crate; its callers map any such failure to
/// this one marker.
#[derive(Clone, Copy, Debug, PartialEq, Eq, Structural)]
pub enum PoolError {
    Fail,
}

impl PoolError {
    /// The store fault that a connection failure surfaces as.
    pub fn as_fault(&self) -> (r: Error)
        ensures
            r == Error::Fault,
    {
        Error::Fault
    }
}

impl Error {
    /// A short description, for callers that print outcomes.
    pub fn describe(&self) -> (r: &'static str)
        ensures
            r@ == (match self {
                Error::NotFound => "not found"@,
                Error::AuthenticationDenied => "authentication denied"@,
                Error::AuthorizationDenied => "authorization denied"@,
                Error::Conflict => "conflict"@,
                Error::Fault => "fault"@,
            }),
    {
        let s: &'static str = match self {
            Error::NotFound => "not found",
            Error::AuthenticationDenied => "authentication denied",
            Error::AuthorizationDenied => "authorization denied",
            Error::Conflict => "conflict",
            Error::Fault => "fault",
        };
        proof {
            reveal_strlit("not found");
            reveal_strlit("authentication denied");
            reveal_strlit("authorization denied");
            reveal_strlit("conflict");
            reveal_strlit("fault");
        }
        s
    }
}

} // verus!
