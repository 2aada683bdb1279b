//! The token codec: issues a signed, time-bounded access token and verifies
//! one, distinguishing a bad signature or structure from a lapsed window.
//!
//! A token is three dot-separated segments, each URL-safe base64 without
//! padding: a fixed header, the claims record, and the HMAC-SHA512 of the
//! first two segments under the shared secret.

use vstd::prelude::*;
use crate::base64url::{
    spec_b64u, spec_b64u_dec, b64u_encode, b64u_decode, lemma_b64u_no_reserved,
    lemma_b64u_roundtrip,
};
use crate::claims::{
    Claims, SpecClaims, spec_claims_bytes, spec_parse_claims, encode_claims, parse_claims,
    lemma_claims_roundtrip,
};
use crate::crypto::{hmac_sha512, hmac_sha512_of};
use crate::errors::AuthError;
use crate::role::Role;

verus! {

/// How long a token stays valid after issue, in seconds.
pub const TOKEN_VALIDITY_SECS: u64 = 3600;

/// The ASCII dot that separates a token's segments.
pub const SEGMENT_DOT: u8 = 46;

/// The fixed header segment's content, `HS512`, naming the signing scheme.
pub open spec fn spec_header() -> Seq<u8> {
    seq![72u8, 83u8, 53u8, 49u8, 50u8]
}

pub fn header_bytes() -> (out: Vec<u8>)
    ensures
        out@ == spec_header(),
{
    let mut v: Vec<u8> = Vec::new();
    v.push(72u8);
    v.push(83u8);
    v.push(53u8);
    v.push(49u8);
    v.push(50u8);
    proof {
        assert(v@ =~= spec_header());
    }
    v
}

/// The two signed segments: encoded header, a dot, encoded claims.
pub open spec fn spec_signing_input(subject: Seq<u8>, role: Role, iat: u64, exp: u64) -> Seq<u8> {
    spec_b64u(spec_header()) + seq![SEGMENT_DOT] + spec_b64u(
        spec_claims_bytes(
            SpecClaims { subject, role, issued_at: iat, expires_at: exp },
        ),
    )
}

/// A well-signed token: the signing input, a dot, and the encoded MAC of the
/// signing input under `secret`.
pub open spec fn spec_signed_token(
    secret: Seq<u8>,
    subject: Seq<u8>,
    role: Role,
    iat: u64,
    exp: u64,
) -> Seq<u8> {
    let si = spec_signing_input(subject, role, iat, exp);
    si + seq![SEGMENT_DOT] + spec_b64u(hmac_sha512_of(secret, si))
}

/// No dot occurs in `s`.
pub open spec fn spec_dot_free(s: Seq<u8>) -> bool {
    forall|k: int| 0 <= k < s.len() ==> s[k] != SEGMENT_DOT
}

/// The first dot at or after `i`, if any.
pub open spec fn spec_find_dot(s: Seq<u8>, i: int) -> Option<int>
    decreases s.len() - i,
{
    if i < 0 || i >= s.len() {
        None
    } else if s[i] == SEGMENT_DOT {
        Some(i)
    } else {
        spec_find_dot(s, i + 1)
    }
}

/// What `spec_find_dot` returns: the least dot position at or after `from`,
/// or nothing when no dot follows.
pub proof fn lemma_find_dot_spec(s: Seq<u8>, from: int)
    requires
        0 <= from <= s.len(),
    ensures
        match spec_find_dot(s, from) {
            Some(m) => from <= m < s.len() && s[m] == SEGMENT_DOT && (forall|k: int|
                from <= k < m ==> s[k] != SEGMENT_DOT),
            None => forall|k: int| from <= k < s.len() ==> s[k] != SEGMENT_DOT,
        },
    decreases s.len() - from,
{
    if from < s.len() && s[from] != SEGMENT_DOT {
        lemma_find_dot_spec(s, from + 1);
    }
}

/// A token split into exactly three segments, or refused when it has fewer
/// or more than two dots.
pub open spec fn spec_split3(t: Seq<u8>) -> Option<(Seq<u8>, Seq<u8>, Seq<u8>)> {
    match spec_find_dot(t, 0) {
        None => None,
        Some(i) => match spec_find_dot(t, i + 1) {
            None => None,
            Some(j) => if spec_find_dot(t, j + 1) is Some {
                None
            } else {
                Some((t.subrange(0, i), t.subrange(i + 1, j), t.subrange(j + 1, t.len() as int)))
            },
        },
    }
}

/// Splitting a joined `a.b.c` with dot-free `a` and `b` yields exactly the
/// three parts, or refuses when `c` itself holds a dot.
pub proof fn lemma_split3_joined(a: Seq<u8>, b: Seq<u8>, c: Seq<u8>)
    requires
        spec_dot_free(a),
        spec_dot_free(b),
    ensures
        spec_dot_free(c) ==> spec_split3(a + seq![SEGMENT_DOT] + b + seq![SEGMENT_DOT] + c)
            == Some((a, b, c)),
        !spec_dot_free(c) ==> spec_split3(a + seq![SEGMENT_DOT] + b + seq![SEGMENT_DOT] + c)
            is None,
{
    let t = a + seq![SEGMENT_DOT] + b + seq![SEGMENT_DOT] + c;
    let la = a.len() as int;
    let lb = b.len() as int;
    assert(t.len() == la + 1 + lb + 1 + c.len());
    assert(t[la] == SEGMENT_DOT);
    assert(t[la + 1 + lb] == SEGMENT_DOT);
    assert(forall|k: int| 0 <= k < la ==> t[k] == a[k] && t[k] != SEGMENT_DOT);
    assert(forall|k: int| la + 1 <= k < la + 1 + lb ==> t[k] == b[k - la - 1] && t[k]
        != SEGMENT_DOT);
    assert(forall|k: int| la + 1 + lb + 1 <= k < t.len() ==> t[k] == c[k - (la + 1 + lb + 1)]);
    lemma_find_dot_spec(t, 0);
    let i = spec_find_dot(t, 0);
    assert(i is Some);
    let i = i->0;
    assert(!(i < la) && !(i > la)) by {
        if i < la {
        } else if i > la {
            assert(t[la] != SEGMENT_DOT);
        }
    }
    assert(i == la);
    lemma_find_dot_spec(t, i + 1);
    let j = spec_find_dot(t, i + 1);
    assert(j is Some);
    let j = j->0;
    assert(!(j < la + 1 + lb) && !(j > la + 1 + lb)) by {
        if j < la + 1 + lb {
        } else if j > la + 1 + lb {
            assert(t[la + 1 + lb] != SEGMENT_DOT);
        }
    }
    assert(j == la + 1 + lb);
    lemma_find_dot_spec(t, j + 1);
    if spec_dot_free(c) {
        assert(spec_find_dot(t, j + 1) is None) by {
            if spec_find_dot(t, j + 1) is Some {
                let m = spec_find_dot(t, j + 1)->0;
                assert(c[m - (j + 1)] == SEGMENT_DOT);
            }
        }
        assert(t.subrange(0, i) =~= a);
        assert(t.subrange(i + 1, j) =~= b);
        assert(t.subrange(j + 1, t.len() as int) =~= c);
    } else {
        assert(spec_find_dot(t, j + 1) is Some) by {
            if spec_find_dot(t, j + 1) is None {
                let k = choose|k: int| 0 <= k < c.len() && c[k] == SEGMENT_DOT;
                assert(t[j + 1 + k] == SEGMENT_DOT);
            }
        }
    }
}

/// What verification yields on any token bytes: the claims when the token is
/// three well-formed segments, correctly signed and unexpired; otherwise the
/// exact failure kind, a lapsed window being the one non-structural failure.
pub open spec fn spec_verify(secret: Seq<u8>, token: Seq<u8>, now: u64) -> Result<
    SpecClaims,
    AuthError,
> {
    match spec_split3(token) {
        None => Err(AuthError::TokenInvalid),
        Some((h, c, sgn)) => if h != spec_b64u(spec_header()) {
            Err(AuthError::TokenInvalid)
        } else if sgn != spec_b64u(hmac_sha512_of(secret, h + seq![SEGMENT_DOT] + c)) {
            Err(AuthError::TokenInvalid)
        } else {
            match spec_b64u_dec(c) {
                None => Err(AuthError::TokenInvalid),
                Some(cb) => match spec_parse_claims(cb) {
                    None => Err(AuthError::TokenInvalid),
                    Some(cl) => if now > cl.expires_at {
                        Err(AuthError::TokenExpired)
                    } else {
                        Ok(cl)
                    },
                },
            }
        },
    }
}

/// Finds the first dot at or after `from`.
pub fn find_dot(s: &Vec<u8>, from: usize) -> (out: Option<usize>)
    requires
        from <= s@.len(),
    ensures
        match out {
            Some(k) => from <= k < s@.len() && spec_find_dot(s@, from as int) == Some(k as int),
            None => spec_find_dot(s@, from as int) is None,
        },
{
    let mut i: usize = from;
    while i < s.len()
        invariant
            from <= i <= s@.len(),
            spec_find_dot(s@, from as int) == spec_find_dot(s@, i as int),
        decreases s@.len() - i,
    {
        if s[i] == SEGMENT_DOT {
            return Some(i);
        }
        i += 1;
    }
    None
}

/// Issues a token for `subject` with `role`, valid from `now` for the fixed
/// window.
pub fn issue(secret: &Vec<u8>, subject: &Vec<u8>, role: Role, now: u64) -> (out: Vec<u8>)
    requires
        now + TOKEN_VALIDITY_SECS <= u64::MAX,
        secret@.len() <= crate::crypto::MAX_HMAC_KEY_LEN,
    ensures
        out@ == spec_signed_token(
            secret@,
            subject@,
            role,
            now,
            (now + TOKEN_VALIDITY_SECS) as u64,
        ),
{
    let exp: u64 = now + TOKEN_VALIDITY_SECS;
    let claims = Claims {
        subject: crate::bytes::copy_range(subject, 0, subject.len()),
        role,
        issued_at: now,
        expires_at: exp,
    };
    proof {
        assert(claims.subject@ =~= subject@);
    }
    let cb = encode_claims(&claims);
    let header = header_bytes();
    let h64 = b64u_encode(&header);
    let c64 = b64u_encode(&cb);
    let mut si: Vec<u8> = Vec::new();
    crate::bytes::extend(&mut si, &h64);
    si.push(SEGMENT_DOT);
    crate::bytes::extend(&mut si, &c64);
    proof {
        assert(si@ =~= spec_signing_input(subject@, role, now, exp));
    }
    let mac = hmac_sha512(secret, &si);
    let s64 = b64u_encode(&mac);
    let mut tok = si;
    tok.push(SEGMENT_DOT);
    crate::bytes::extend(&mut tok, &s64);
    proof {
        assert(tok@ =~= spec_signed_token(secret@, subject@, role, now, exp));
    }
    tok
}

/// Verifies a token against the shared secret and the current time,
/// returning its claims or the exact failure kind of `spec_verify`.
pub fn verify(secret: &Vec<u8>, token: &Vec<u8>, now: u64) -> (out: Result<Claims, AuthError>)
    requires
        secret@.len() <= crate::crypto::MAX_HMAC_KEY_LEN,
    ensures
        match out {
            Ok(c) => spec_verify(secret@, token@, now) == Ok::<SpecClaims, AuthError>(c@),
            Err(e) => spec_verify(secret@, token@, now) == Err::<SpecClaims, AuthError>(e),
        },
{
    let n: usize = token.len();
    let i = match find_dot(token, 0) {
        None => {
            return Err(AuthError::TokenInvalid);
        },
        Some(i) => i,
    };
    assert(i < n);
    let j = match find_dot(token, i + 1) {
        None => {
            return Err(AuthError::TokenInvalid);
        },
        Some(j) => j,
    };
    assert(j < n);
    if find_dot(token, j + 1).is_some() {
        return Err(AuthError::TokenInvalid);
    }
    proof {
        assert(spec_split3(token@) == Some(
            (
                token@.subrange(0, i as int),
                token@.subrange(i as int + 1, j as int),
                token@.subrange(j as int + 1, token@.len() as int),
            ),
        ));
    }
    let h = crate::bytes::copy_range(token, 0, i);
    let c = crate::bytes::copy_range(token, i + 1, j);
    let sgn = crate::bytes::copy_range(token, j + 1, token.len());
    let header = header_bytes();
    let h_expected = b64u_encode(&header);
    if !crate::bytes::bytes_eq(&h, &h_expected) {
        return Err(AuthError::TokenInvalid);
    }
    let mut si: Vec<u8> = Vec::new();
    crate::bytes::extend(&mut si, &h);
    si.push(SEGMENT_DOT);
    crate::bytes::extend(&mut si, &c);
    proof {
        assert(si@ =~= h@ + seq![SEGMENT_DOT] + c@);
    }
    let mac = hmac_sha512(secret, &si);
    let s_expected = b64u_encode(&mac);
    if !crate::bytes::bytes_eq(&sgn, &s_expected) {
        return Err(AuthError::TokenInvalid);
    }
    let cb = match b64u_decode(&c) {
        None => {
            return Err(AuthError::TokenInvalid);
        },
        Some(cb) => cb,
    };
    let cl = match parse_claims(&cb) {
        None => {
            return Err(AuthError::TokenInvalid);
        },
        Some(cl) => cl,
    };
    if now > cl.expires_at {
        return Err(AuthError::TokenExpired);
    }
    Ok(cl)
}

/// A freshly issued token verifies within its window and yields back the
/// subject and role it was issued for.
pub proof fn lemma_token_round_trip(
    secret: Seq<u8>,
    subject: Seq<u8>,
    role: Role,
    iat: u64,
    exp: u64,
    now: u64,
)
    requires
        now <= exp,
    ensures
        spec_verify(secret, spec_signed_token(secret, subject, role, iat, exp), now)
            == Ok::<SpecClaims, AuthError>(
            SpecClaims { subject, role, issued_at: iat, expires_at: exp },
        ),
{
    lemma_verify_well_signed(secret, subject, role, iat, exp, now);
}

/// A well-signed token presented strictly after its expiry fails with
/// `TokenExpired`, never another kind.
pub proof fn lemma_token_expired(
    secret: Seq<u8>,
    subject: Seq<u8>,
    role: Role,
    iat: u64,
    exp: u64,
    now: u64,
)
    requires
        now > exp,
    ensures
        spec_verify(secret, spec_signed_token(secret, subject, role, iat, exp), now)
            == Err::<SpecClaims, AuthError>(AuthError::TokenExpired),
{
    lemma_verify_well_signed(secret, subject, role, iat, exp, now);
}

/// The shared shape of the two outcomes on a well-signed token: the split,
/// header check, signature check, decode and parse all succeed, and only
/// the clock decides.
proof fn lemma_verify_well_signed(
    secret: Seq<u8>,
    subject: Seq<u8>,
    role: Role,
    iat: u64,
    exp: u64,
    now: u64,
)
    ensures
        spec_verify(secret, spec_signed_token(secret, subject, role, iat, exp), now) == (if now
            > exp {
            Err::<SpecClaims, AuthError>(AuthError::TokenExpired)
        } else {
            Ok::<SpecClaims, AuthError>(
                SpecClaims { subject, role, issued_at: iat, expires_at: exp },
            )
        }),
{
    let cl = SpecClaims { subject, role, issued_at: iat, expires_at: exp };
    let h = spec_b64u(spec_header());
    let c = spec_b64u(spec_claims_bytes(cl));
    let si = spec_signing_input(subject, role, iat, exp);
    let sgn = spec_b64u(hmac_sha512_of(secret, si));
    let t = spec_signed_token(secret, subject, role, iat, exp);
    lemma_b64u_no_reserved(spec_header());
    lemma_b64u_no_reserved(spec_claims_bytes(cl));
    lemma_b64u_no_reserved(hmac_sha512_of(secret, si));
    assert(t =~= h + seq![SEGMENT_DOT] + c + seq![SEGMENT_DOT] + sgn);
    lemma_split3_joined(h, c, sgn);
    assert(spec_split3(t) == Some((h, c, sgn)));
    assert(h + seq![SEGMENT_DOT] + c =~= si);
    lemma_b64u_roundtrip(spec_claims_bytes(cl));
    lemma_claims_roundtrip(cl);
}

/// Any change to the signature segment of a well-signed token makes
/// verification fail with `TokenInvalid`, never succeed: the tampered
/// segment either still splits and mismatches the recomputed MAC, or breaks
/// the three-segment structure outright.
pub proof fn lemma_sig_tamper(
    secret: Seq<u8>,
    subject: Seq<u8>,
    role: Role,
    iat: u64,
    exp: u64,
    sgn2: Seq<u8>,
    now: u64,
)
    requires
        sgn2 != spec_b64u(
            hmac_sha512_of(secret, spec_signing_input(subject, role, iat, exp)),
        ),
    ensures
        spec_verify(
            secret,
            spec_signing_input(subject, role, iat, exp) + seq![SEGMENT_DOT] + sgn2,
            now,
        ) == Err::<SpecClaims, AuthError>(AuthError::TokenInvalid),
{
    let cl = SpecClaims { subject, role, issued_at: iat, expires_at: exp };
    let h = spec_b64u(spec_header());
    let c = spec_b64u(spec_claims_bytes(cl));
    let si = spec_signing_input(subject, role, iat, exp);
    let t = si + seq![SEGMENT_DOT] + sgn2;
    lemma_b64u_no_reserved(spec_header());
    lemma_b64u_no_reserved(spec_claims_bytes(cl));
    assert(t =~= h + seq![SEGMENT_DOT] + c + seq![SEGMENT_DOT] + sgn2);
    lemma_split3_joined(h, c, sgn2);
    if spec_dot_free(sgn2) {
        assert(spec_split3(t) == Some((h, c, sgn2)));
        assert(h + seq![SEGMENT_DOT] + c =~= si);
    }
}

/// Flipping any bit of any byte in the signature segment is such a change:
/// the flipped token is rejected as `TokenInvalid`.
pub proof fn lemma_bit_flip_rejected(
    secret: Seq<u8>,
    subject: Seq<u8>,
    role: Role,
    iat: u64,
    exp: u64,
    k: int,
    mask: u8,
    now: u64,
)
    requires
        mask != 0,
        0 <= k < spec_b64u(
            hmac_sha512_of(secret, spec_signing_input(subject, role, iat, exp)),
        ).len(),
    ensures
        spec_verify(
            secret,
            spec_signing_input(subject, role, iat, exp) + seq![SEGMENT_DOT] + spec_b64u(
                hmac_sha512_of(secret, spec_signing_input(subject, role, iat, exp)),
            ).update(
                k,
                spec_b64u(
                    hmac_sha512_of(secret, spec_signing_input(subject, role, iat, exp)),
                )[k] ^ mask,
            ),
            now,
        ) == Err::<SpecClaims, AuthError>(AuthError::TokenInvalid),
{
    let sgn = spec_b64u(hmac_sha512_of(secret, spec_signing_input(subject, role, iat, exp)));
    let b = sgn[k];
    assert((b ^ mask) != b) by (bit_vector)
        requires
            mask != 0u8,
    ;
    let sgn2 = sgn.update(k, b ^ mask);
    assert(sgn2[k] != sgn[k]);
    assert(sgn2 != sgn);
    lemma_sig_tamper(secret, subject, role, iat, exp, sgn2, now);
}

} // verus!
