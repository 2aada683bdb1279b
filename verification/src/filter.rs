//! The authorization filter: from the request's bearer header to an
//! authorized subject id or the exact rejection reason.

use vstd::prelude::*;
use crate::claims::SpecClaims;
use crate::errors::AuthError;
use crate::role::{Role, spec_role_geq, role_geq};
use crate::token::{verify, spec_verify};

verus! {

/// The bytes of the `Bearer ` scheme prefix.
pub open spec fn spec_bearer_prefix() -> Seq<u8> {
    seq![66u8, 101u8, 97u8, 114u8, 101u8, 114u8, 32u8]
}

pub fn bearer_prefix() -> (out: Vec<u8>)
    ensures
        out@ == spec_bearer_prefix(),
{
    let mut v: Vec<u8> = Vec::new();
    v.push(66u8);
    v.push(101u8);
    v.push(97u8);
    v.push(114u8);
    v.push(101u8);
    v.push(114u8);
    v.push(32u8);
    proof {
        assert(v@ =~= spec_bearer_prefix());
    }
    v
}

/// The token carried by a header value, when the value follows the
/// `Bearer <token>` scheme.
pub open spec fn spec_extract_bearer(h: Seq<u8>) -> Option<Seq<u8>> {
    if h.len() >= 7 && h.subrange(0, 7) == spec_bearer_prefix() {
        Some(h.skip(7))
    } else {
        None
    }
}

/// The view of an optional header value.
pub open spec fn spec_opt_view(h: Option<&Vec<u8>>) -> Option<Seq<u8>> {
    match h {
        Some(v) => Some(v@),
        None => None,
    }
}

/// What the filter decides on any request: a missing or malformed header is
/// `NoAuth`; a present token fails as `spec_verify` says; a verified claim
/// whose role does not meet the requirement is `InsufficientRole`; otherwise
/// the claim's subject is admitted.
pub open spec fn spec_authorize(
    secret: Seq<u8>,
    required: Role,
    header: Option<Seq<u8>>,
    now: u64,
) -> Result<Seq<u8>, AuthError> {
    match header {
        None => Err(AuthError::NoAuth),
        Some(h) => match spec_extract_bearer(h) {
            None => Err(AuthError::NoAuth),
            Some(tok) => match spec_verify(secret, tok, now) {
                Err(e) => Err(e),
                Ok(cl) => if !spec_role_geq(cl.role, required) {
                    Err(AuthError::InsufficientRole)
                } else {
                    Ok(cl.subject)
                },
            },
        },
    }
}

/// Runs the filter on a request's header value, binding the verified
/// subject id or short-circuiting with the rejection reason.
pub fn authorize(secret: &Vec<u8>, required: Role, header: Option<&Vec<u8>>, now: u64) -> (out:
    Result<Vec<u8>, AuthError>)
    requires
        secret@.len() <= crate::crypto::MAX_HMAC_KEY_LEN,
    ensures
        match out {
            Ok(sub) => spec_authorize(secret@, required, spec_opt_view(header), now) == Ok::<
                Seq<u8>,
                AuthError,
            >(sub@),
            Err(e) => spec_authorize(secret@, required, spec_opt_view(header), now) == Err::<
                Seq<u8>,
                AuthError,
            >(e),
        },
{
    let h = match header {
        None => {
            return Err(AuthError::NoAuth);
        },
        Some(h) => h,
    };
    if h.len() < 7 {
        return Err(AuthError::NoAuth);
    }
    let prefix = crate::bytes::copy_range(h, 0, 7);
    let expected = bearer_prefix();
    if !crate::bytes::bytes_eq(&prefix, &expected) {
        return Err(AuthError::NoAuth);
    }
    let tok = crate::bytes::copy_range(h, 7, h.len());
    proof {
        assert(spec_extract_bearer(h@) == Some(tok@));
    }
    let cl = match verify(secret, &tok, now) {
        Err(e) => {
            return Err(e);
        },
        Ok(cl) => cl,
    };
    if !role_geq(cl.role, required) {
        return Err(AuthError::InsufficientRole);
    }
    Ok(cl.subject)
}

/// Role ordering, rejecting half: a claim verified with the User role is
/// rejected by an Admin-required filter.
pub proof fn lemma_user_rejected_by_admin_filter(
    secret: Seq<u8>,
    tok: Seq<u8>,
    cl: SpecClaims,
    now: u64,
)
    requires
        spec_verify(secret, tok, now) == Ok::<SpecClaims, AuthError>(cl),
        cl.role == Role::User,
    ensures
        spec_authorize(secret, Role::Admin, Some(spec_bearer_prefix() + tok), now) == Err::<
            Seq<u8>,
            AuthError,
        >(AuthError::InsufficientRole),
{
    let h = spec_bearer_prefix() + tok;
    assert(h.subrange(0, 7) =~= spec_bearer_prefix());
    assert(h.skip(7) =~= tok);
}

/// Role ordering, admitting half: a claim verified with the Admin role is
/// accepted by a User-required filter, binding its subject.
pub proof fn lemma_admin_accepted_by_user_filter(
    secret: Seq<u8>,
    tok: Seq<u8>,
    cl: SpecClaims,
    now: u64,
)
    requires
        spec_verify(secret, tok, now) == Ok::<SpecClaims, AuthError>(cl),
        cl.role == Role::Admin,
    ensures
        spec_authorize(secret, Role::User, Some(spec_bearer_prefix() + tok), now) == Ok::<
            Seq<u8>,
            AuthError,
        >(cl.subject),
{
    let h = spec_bearer_prefix() + tok;
    assert(h.subrange(0, 7) =~= spec_bearer_prefix());
    assert(h.skip(7) =~= tok);
}

/// A request with no authorization header at all is rejected as `NoAuth`.
pub proof fn lemma_missing_header_rejected(secret: Seq<u8>, required: Role, now: u64)
    ensures
        spec_authorize(secret, required, None, now) == Err::<Seq<u8>, AuthError>(
            AuthError::NoAuth,
        ),
{
}

} // verus!
