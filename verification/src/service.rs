//! Login: the credential-issuance pipeline from a presented credential pair
//! to the sealed three-part response, and the protected handlers' bodies.

use vstd::prelude::*;
use crate::base64url::spec_b64std;
use crate::crypto::blake2b_of;
use crate::claims::SpecClaims;
use crate::directory::{Directory, spec_lookup, lemma_lookup_spec};
use crate::errors::AuthError;
use crate::seal::{SealedCredential, seal, responder};
use crate::token::{
    issue, spec_signed_token, spec_verify, lemma_token_round_trip, TOKEN_VALIDITY_SECS,
};

verus! {

/// The caller-supplied credential pair, matched by equality against a
/// directory entry's external identity and partition id.
pub struct LoginRequest {
    pub identity: Vec<u8>,
    pub service_id: Vec<u8>,
}

/// The one-string response a successful login returns.
pub struct LoginResponse {
    pub responder: Vec<u8>,
}

/// Logs a credential pair in: looks the pair up, issues a token for the
/// found identity, and seals it. `WrongCredentials` exactly when no entry
/// matches; `SigningFailure` only when one does but the seal's signing step
/// failed.
pub fn login(dir: &Directory, secret: &Vec<u8>, req: &LoginRequest, now: u64) -> (out: Result<
    SealedCredential,
    AuthError,
>)
    requires
        now + TOKEN_VALIDITY_SECS <= u64::MAX,
        secret@.len() <= crate::crypto::MAX_HMAC_KEY_LEN,
    ensures
        match out {
            Ok(s) => {
                &&& spec_lookup(dir@, req.identity@, req.service_id@) is Some
                &&& ({
                    let k = spec_lookup(dir@, req.identity@, req.service_id@)->0;
                    s.token@ == spec_signed_token(
                        secret@,
                        dir@[k].subject_id,
                        dir@[k].role,
                        now,
                        (now + TOKEN_VALIDITY_SECS) as u64,
                    )
                })
                &&& s.digest_b64@ == spec_b64std(blake2b_of(s.token@))
                &&& exists|sig: Seq<u8>|
                    sig.len() == 256 && s.signature_b64@ == spec_b64std(sig)
            },
            Err(e) => {
                &&& e == AuthError::WrongCredentials || e == AuthError::SigningFailure
                &&& e == AuthError::WrongCredentials <==> spec_lookup(
                    dir@,
                    req.identity@,
                    req.service_id@,
                ) is None
            },
        },
{
    let k = match dir.lookup(&req.identity, &req.service_id) {
        None => {
            return Err(AuthError::WrongCredentials);
        },
        Some(k) => k,
    };
    let u = &dir.entries[k];
    let token = issue(secret, &u.subject_id, u.role, now);
    seal(&token)
}

/// For every identity in a well-formed directory, logging in with exactly
/// that identity's credential pair finds that identity and no other, and
/// the token minted for it verifies, at any time within the validity
/// window, to a claim carrying that identity's subject id and role.
pub proof fn lemma_login_round_trip(dir: Directory, secret: Seq<u8>, k: int, now: u64, at: u64)
    requires
        dir.wf(),
        0 <= k < dir@.len(),
        now + TOKEN_VALIDITY_SECS <= u64::MAX,
        at <= now + TOKEN_VALIDITY_SECS,
    ensures
        spec_lookup(dir@, dir@[k].external_identity, dir@[k].partition_id) == Some(k),
        spec_verify(
            secret,
            spec_signed_token(
                secret,
                dir@[k].subject_id,
                dir@[k].role,
                now,
                (now + TOKEN_VALIDITY_SECS) as u64,
            ),
            at,
        ) == Ok::<SpecClaims, AuthError>(
            SpecClaims {
                subject: dir@[k].subject_id,
                role: dir@[k].role,
                issued_at: now,
                expires_at: (now + TOKEN_VALIDITY_SECS) as u64,
            },
        ),
{
    let ext = dir@[k].external_identity;
    let part = dir@[k].partition_id;
    lemma_lookup_spec(dir@, ext, part);
    match spec_lookup(dir@, ext, part) {
        Some(m) => {
            if m < k {
                assert(!(dir@[m].external_identity == dir@[k].external_identity
                    && dir@[m].partition_id == dir@[k].partition_id));
            } else if m > k {
                assert(!(dir@[k].external_identity == ext && dir@[k].partition_id == part));
            }
        },
        None => {
            assert(!(dir@[k].external_identity == ext && dir@[k].partition_id == part));
        },
    }
    lemma_token_round_trip(
        secret,
        dir@[k].subject_id,
        dir@[k].role,
        now,
        (now + TOKEN_VALIDITY_SECS) as u64,
        at,
    );
}

/// A successful login's response string: the sealed parts joined by bars.
pub fn login_response(s: &SealedCredential) -> (out: LoginResponse)
    ensures
        out.responder@ == s.signature_b64@ + seq![crate::seal::PART_BAR] + s.token@ + seq![
            crate::seal::PART_BAR,
        ] + s.digest_b64@,
{
    LoginResponse { responder: responder(s) }
}

/// The body of a protected resource's response: the service banner, an
/// `ADMIN ` marker on the admin resource, then the verified subject id.
pub fn resource_body(subject: &Vec<u8>, admin: bool) -> (out: Vec<u8>)
    ensures
        admin ==> out@ == spec_service_banner() + spec_admin_marker() + subject@,
        !admin ==> out@ == spec_service_banner() + subject@,
{
    let mut out = service_banner();
    if admin {
        let marker = admin_marker();
        crate::bytes::extend(&mut out, &marker);
    }
    crate::bytes::extend(&mut out, subject);
    out
}

/// The bytes of `royal_blobs_jwt_service `.
pub open spec fn spec_service_banner() -> Seq<u8> {
    seq![114u8, 111u8, 121u8, 97u8, 108u8, 95u8, 98u8, 108u8, 111u8, 98u8, 115u8, 95u8, 106u8, 119u8, 116u8, 95u8, 115u8, 101u8, 114u8, 118u8, 105u8, 99u8, 101u8, 32u8]
}

pub fn service_banner() -> (out: Vec<u8>)
    ensures
        out@ == spec_service_banner(),
{
    let mut v: Vec<u8> = Vec::new();
    v.push(114u8);
    v.push(111u8);
    v.push(121u8);
    v.push(97u8);
    v.push(108u8);
    v.push(95u8);
    v.push(98u8);
    v.push(108u8);
    v.push(111u8);
    v.push(98u8);
    v.push(115u8);
    v.push(95u8);
    v.push(106u8);
    v.push(119u8);
    v.push(116u8);
    v.push(95u8);
    v.push(115u8);
    v.push(101u8);
    v.push(114u8);
    v.push(118u8);
    v.push(105u8);
    v.push(99u8);
    v.push(101u8);
    v.push(32u8);
    proof {
        assert(v@ =~= spec_service_banner());
    }
    v
}

/// The bytes of `ADMIN `.
pub open spec fn spec_admin_marker() -> Seq<u8> {
    seq![65u8, 68u8, 77u8, 73u8, 78u8, 32u8]
}

pub fn admin_marker() -> (out: Vec<u8>)
    ensures
        out@ == spec_admin_marker(),
{
    let mut v: Vec<u8> = Vec::new();
    v.push(65u8);
    v.push(68u8);
    v.push(77u8);
    v.push(73u8);
    v.push(78u8);
    v.push(32u8);
    proof {
        assert(v@ =~= spec_admin_marker());
    }
    v
}

} // verus!
