//! The digest-and-sign pipeline that seals a freshly minted token, and the
//! one-string response it is packaged into.

use vstd::prelude::*;
use crate::base64url::{spec_b64std, lemma_b64std_no_bar, lemma_b64u_no_reserved, spec_b64u};
use crate::crypto::{blake2b_of, blake2b_digest, b64std_encode, rsa_sign_fresh, hmac_sha512_of};
use crate::errors::AuthError;
use crate::role::Role;
use crate::token::{spec_signed_token, spec_signing_input, spec_header, SEGMENT_DOT};

verus! {

/// The ASCII bar that joins the three parts of the response.
pub const PART_BAR: u8 = 124;

/// The three-part artifact returned on login: detached signature, token,
/// and content digest, the outer two in standard base64.
#[derive(Debug, PartialEq, Eq)]
pub struct SealedCredential {
    pub signature_b64: Vec<u8>,
    pub token: Vec<u8>,
    pub digest_b64: Vec<u8>,
}

/// Mathematical image of a sealed credential.
pub ghost struct SpecSealed {
    pub signature_b64: Seq<u8>,
    pub token: Seq<u8>,
    pub digest_b64: Seq<u8>,
}

impl View for SealedCredential {
    type V = SpecSealed;

    open spec fn view(&self) -> SpecSealed {
        SpecSealed {
            signature_b64: self.signature_b64@,
            token: self.token@,
            digest_b64: self.digest_b64@,
        }
    }
}

/// No bar occurs in `s`.
pub open spec fn spec_bar_free(s: Seq<u8>) -> bool {
    forall|k: int| 0 <= k < s.len() ==> s[k] != PART_BAR
}

/// Seals a token: the BLAKE2b digest of its exact bytes in standard base64,
/// and a detached RSA signature over the same bytes, also in standard
/// base64. A key-generation or signing failure is fatal to the request and
/// never partially completed.
pub fn seal(token: &Vec<u8>) -> (out: Result<SealedCredential, AuthError>)
    ensures
        match out {
            Ok(s) => s.token@ == token@ && s.digest_b64@ == spec_b64std(blake2b_of(token@)) && (
            exists|sig: Seq<u8>| sig.len() == 256 && s.signature_b64@ == spec_b64std(sig)),
            Err(e) => e == AuthError::SigningFailure,
        },
{
    let digest = blake2b_digest(token);
    let digest_b64 = b64std_encode(&digest);
    let sig = match rsa_sign_fresh(token) {
        Ok(sig) => sig,
        Err(_) => {
            return Err(AuthError::SigningFailure);
        },
    };
    let signature_b64 = b64std_encode(&sig);
    proof {
        assert(sig@.len() == 256 && signature_b64@ == spec_b64std(sig@));
    }
    Ok(
        SealedCredential {
            signature_b64,
            token: crate::bytes::copy_range(token, 0, token.len()),
            digest_b64,
        },
    )
}

/// The alternative seal configuration: as `seal`, but signing with a
/// process-held key instead of a fresh pair per login. The default pipeline
/// is `seal`, whose per-login fresh key makes the signature a closed loop;
/// this one makes signatures from different logins verifiable against one
/// public key. The signature's length follows the key, so only its encoding
/// is stated.
pub fn seal_with_key(
    key: &openssl::pkey::PKey<openssl::pkey::Private>,
    token: &Vec<u8>,
) -> (out: Result<SealedCredential, AuthError>)
    ensures
        match out {
            Ok(s) => s.token@ == token@ && s.digest_b64@ == spec_b64std(blake2b_of(token@)) && (
            exists|sig: Seq<u8>| s.signature_b64@ == spec_b64std(sig)),
            Err(e) => e == AuthError::SigningFailure,
        },
{
    let digest = blake2b_digest(token);
    let digest_b64 = b64std_encode(&digest);
    let sig = match crate::crypto::rsa_sign_with(key, token) {
        Ok(sig) => sig,
        Err(_) => {
            return Err(AuthError::SigningFailure);
        },
    };
    let signature_b64 = b64std_encode(&sig);
    proof {
        assert(signature_b64@ == spec_b64std(sig@));
    }
    Ok(
        SealedCredential {
            signature_b64,
            token: crate::bytes::copy_range(token, 0, token.len()),
            digest_b64,
        },
    )
}

/// Joins the three parts with single bars: `signature|token|digest`.
pub fn responder(s: &SealedCredential) -> (out: Vec<u8>)
    ensures
        out@ == s.signature_b64@ + seq![PART_BAR] + s.token@ + seq![PART_BAR] + s.digest_b64@,
{
    let mut out: Vec<u8> = Vec::new();
    crate::bytes::extend(&mut out, &s.signature_b64);
    out.push(PART_BAR);
    crate::bytes::extend(&mut out, &s.token);
    out.push(PART_BAR);
    crate::bytes::extend(&mut out, &s.digest_b64);
    proof {
        assert(out@ =~= s.signature_b64@ + seq![PART_BAR] + s.token@ + seq![PART_BAR]
            + s.digest_b64@);
    }
    out
}

/// The format invariant of the response: the bar delimiter occurs in none of
/// the three fields of a credential sealed over a well-signed token, so the
/// joined string splits back into exactly those parts.
pub proof fn lemma_parts_bar_free(
    secret: Seq<u8>,
    subject: Seq<u8>,
    role: Role,
    iat: u64,
    exp: u64,
    digest: Seq<u8>,
    sig: Seq<u8>,
)
    ensures
        spec_bar_free(spec_b64std(sig)),
        spec_bar_free(spec_b64std(digest)),
        spec_bar_free(spec_signed_token(secret, subject, role, iat, exp)),
{
    lemma_b64std_no_bar(sig);
    lemma_b64std_no_bar(digest);
    let cl = crate::claims::SpecClaims { subject, role, issued_at: iat, expires_at: exp };
    let h = spec_b64u(spec_header());
    let c = spec_b64u(crate::claims::spec_claims_bytes(cl));
    let si = spec_signing_input(subject, role, iat, exp);
    let sgn = spec_b64u(hmac_sha512_of(secret, si));
    let t = spec_signed_token(secret, subject, role, iat, exp);
    lemma_b64u_no_reserved(spec_header());
    lemma_b64u_no_reserved(crate::claims::spec_claims_bytes(cl));
    lemma_b64u_no_reserved(hmac_sha512_of(secret, si));
    assert(t =~= h + seq![SEGMENT_DOT] + c + seq![SEGMENT_DOT] + sgn);
    assert forall|k: int| 0 <= k < t.len() implies t[k] != PART_BAR by {
        let lh = h.len() as int;
        let lc = c.len() as int;
        if k < lh {
            assert(t[k] == h[k]);
        } else if k == lh {
        } else if k < lh + 1 + lc {
            assert(t[k] == c[k - lh - 1]);
        } else if k == lh + 1 + lc {
        } else {
            assert(t[k] == sgn[k - (lh + 1 + lc + 1)]);
        }
    }
}

} // verus!
