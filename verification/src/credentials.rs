//! The credential service: a user's secret is concatenated with a
//! process-wide pepper and hashed with bcrypt; verification recomputes the
//! digest from the salt and cost embedded in it. The two bcrypt calls are
//! the trusted boundary of this crate; everything around them is verified.

use vstd::prelude::*;
use vstd::string::StringExecFns;
use crate::error::Error;

verus! {

/// The bcrypt cost used for every digest this crate produces.
pub const DIGEST_COST: u32 = 10;

/// Whether bcrypt's deterministic check accepts `secret` against `digest`.
/// This names the result of `bcrypt::verify`, which recomputes the digest
/// from the salt and cost stored inside `digest` and depends on its two
/// arguments alone.
pub uninterp spec fn digest_matches(secret: Seq<char>, digest: Seq<char>) -> bool;

/// Whether `bcrypt::verify` can check against `digest` at all. This names
/// the success of its parse, which depends on the digest alone: sixty
/// ASCII bytes in the versioned dollar-separated format, with a cost in
/// the allowed range. Every digest `bcrypt::hash` produces is of this
/// form.
pub uninterp spec fn digest_wf(digest: Seq<char>) -> bool;

/// Relies on `bcrypt::hash`: a fresh, well-formed digest of `secret`
/// under a random salt, which `bcrypt::verify` then accepts for the same
/// `secret`; errors (an out-of-range cost, or the system randomness
/// failing) come back as `None`.
#[verifier::external_body]
fn bcrypt_hash(secret: &str, cost: u32) -> (r: Option<String>)
    ensures
        match r {
            Some(d) => digest_matches(secret@, d@) && digest_wf(d@),
            None => true,
        },
{
    bcrypt::hash(secret, cost).ok()
}

/// Relies on `bcrypt::verify`: deterministically checks `secret` against
/// `digest`. It answers exactly when the digest is well formed, and comes
/// back as `None` exactly when it is not; the secret itself never makes
/// the check fail.
#[verifier::external_body]
fn bcrypt_verify(secret: &str, digest: &str) -> (r: Option<bool>)
    ensures
        match r {
            Some(b) => digest_wf(digest@) && b == digest_matches(secret@, digest@),
            None => !digest_wf(digest@),
        },
{
    bcrypt::verify(secret, digest).ok()
}

/// The secret as it is actually hashed: the claimed secret with the pepper
/// appended.
pub open spec fn peppered(secret: Seq<char>, pepper: Seq<char>) -> Seq<char> {
    secret + pepper
}

/// Hash `secret + pepper` into a storable, well-formed digest. Fails only
/// when the hashing primitive itself fails.
pub fn make_digest(secret: &str, pepper: &str) -> (r: Result<String, Error>)
    ensures
        match r {
            Ok(d) => digest_matches(peppered(secret@, pepper@), d@) && digest_wf(d@),
            Err(e) => e == Error::Fault,
        },
{
    let combined = secret.to_owned().concat(pepper);
    match bcrypt_hash(combined.as_str(), DIGEST_COST) {
        Some(d) => Ok(d),
        None => Err(Error::Fault),
    }
}

/// Check a claimed secret against a stored digest under the pepper
/// scheme. It answers exactly when the digest is well formed, and fails
/// exactly when it is not.
pub fn check_secret(secret: &str, pepper: &str, digest: &str) -> (r: Result<bool, Error>)
    ensures
        match r {
            Ok(b) => digest_wf(digest@) && b == digest_matches(
                peppered(secret@, pepper@),
                digest@,
            ),
            Err(e) => e == Error::Fault && !digest_wf(digest@),
        },
{
    let combined = secret.to_owned().concat(pepper);
    match bcrypt_verify(combined.as_str(), digest) {
        Some(b) => Ok(b),
        None => Err(Error::Fault),
    }
}

} // verus!
