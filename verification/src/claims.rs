//! The claims a token carries, and their byte encoding.
//!
//! A claims record is `issued_at` and `expires_at` as eight big-endian bytes
//! each, one role tag byte, then the subject id's bytes. Parsing accepts
//! exactly the encodings, so the codec round-trips.

use vstd::prelude::*;
use crate::role::{Role, spec_role_byte, spec_role_of_byte, role_byte, role_of_byte};

verus! {

/// The verified attributes of a token holder: subject id, role, and the
/// bounds of the validity window, in seconds.
#[derive(Debug, PartialEq, Eq)]
pub struct Claims {
    pub subject: Vec<u8>,
    pub role: Role,
    pub issued_at: u64,
    pub expires_at: u64,
}

/// Mathematical image of a claims record.
pub ghost struct SpecClaims {
    pub subject: Seq<u8>,
    pub role: Role,
    pub issued_at: u64,
    pub expires_at: u64,
}

impl View for Claims {
    type V = SpecClaims;

    open spec fn view(&self) -> SpecClaims {
        SpecClaims {
            subject: self.subject@,
            role: self.role,
            issued_at: self.issued_at,
            expires_at: self.expires_at,
        }
    }
}

/// A 64-bit value as eight big-endian bytes.
pub open spec fn spec_u64_be(x: u64) -> Seq<u8> {
    seq![
        (x >> 56u64) as u8,
        (x >> 48u64) as u8,
        (x >> 40u64) as u8,
        (x >> 32u64) as u8,
        (x >> 24u64) as u8,
        (x >> 16u64) as u8,
        (x >> 8u64) as u8,
        x as u8,
    ]
}

/// Eight big-endian bytes as a 64-bit value.
pub open spec fn spec_be_u64(s: Seq<u8>) -> u64
    recommends
        s.len() == 8,
{
    ((s[0] as u64) << 56u64) | ((s[1] as u64) << 48u64) | ((s[2] as u64) << 40u64) | ((s[3] as u64)
        << 32u64) | ((s[4] as u64) << 24u64) | ((s[5] as u64) << 16u64) | ((s[6] as u64) << 8u64) | (
    s[7] as u64)
}

/// Reading back the eight bytes of a value yields the value.
pub proof fn lemma_u64_be_roundtrip(x: u64)
    ensures
        spec_be_u64(spec_u64_be(x)) == x,
{
    assert((((x >> 56u64) as u8 as u64) << 56u64) | (((x >> 48u64) as u8 as u64) << 48u64) | (((x
        >> 40u64) as u8 as u64) << 40u64) | (((x >> 32u64) as u8 as u64) << 32u64) | (((x
        >> 24u64) as u8 as u64) << 24u64) | (((x >> 16u64) as u8 as u64) << 16u64) | (((x
        >> 8u64) as u8 as u64) << 8u64) | ((x as u8) as u64) == x) by (bit_vector);
}

/// The byte encoding of a claims record.
pub open spec fn spec_claims_bytes(c: SpecClaims) -> Seq<u8> {
    spec_u64_be(c.issued_at) + spec_u64_be(c.expires_at) + seq![spec_role_byte(c.role)] + c.subject
}

/// Parses a claims record; refuses inputs shorter than the fixed fields or
/// with an unknown role tag.
pub open spec fn spec_parse_claims(s: Seq<u8>) -> Option<SpecClaims> {
    if s.len() < 17 {
        None
    } else {
        match spec_role_of_byte(s[16]) {
            None => None,
            Some(role) => Some(
                SpecClaims {
                    subject: s.skip(17),
                    role,
                    issued_at: spec_be_u64(s.subrange(0, 8)),
                    expires_at: spec_be_u64(s.subrange(8, 16)),
                },
            ),
        }
    }
}

/// Parsing inverts encoding: the round trip returns the record unchanged.
pub proof fn lemma_claims_roundtrip(c: SpecClaims)
    ensures
        spec_parse_claims(spec_claims_bytes(c)) == Some(c),
{
    let b = spec_claims_bytes(c);
    assert(b.len() == 17 + c.subject.len());
    assert(b.subrange(0, 8) =~= spec_u64_be(c.issued_at));
    assert(b.subrange(8, 16) =~= spec_u64_be(c.expires_at));
    assert(b[16] == spec_role_byte(c.role));
    assert(b.skip(17) =~= c.subject);
    lemma_u64_be_roundtrip(c.issued_at);
    lemma_u64_be_roundtrip(c.expires_at);
}

/// Appends the eight big-endian bytes of `x`.
pub fn push_u64_be(out: &mut Vec<u8>, x: u64)
    ensures
        final(out)@ == old(out)@ + spec_u64_be(x),
{
    out.push((x >> 56u64) as u8);
    out.push((x >> 48u64) as u8);
    out.push((x >> 40u64) as u8);
    out.push((x >> 32u64) as u8);
    out.push((x >> 24u64) as u8);
    out.push((x >> 16u64) as u8);
    out.push((x >> 8u64) as u8);
    out.push(x as u8);
    proof {
        assert(out@ =~= old(out)@ + spec_u64_be(x));
    }
}

/// Reads the eight big-endian bytes at `off`.
pub fn be_u64_at(s: &Vec<u8>, off: usize) -> (out: u64)
    requires
        off + 8 <= s@.len(),
    ensures
        out == spec_be_u64(s@.subrange(off as int, off as int + 8)),
{
    let n: usize = s.len();
    assert(off + 8 <= n);
    let b0 = s[off];
    let b1 = s[off + 1];
    let b2 = s[off + 2];
    let b3 = s[off + 3];
    let b4 = s[off + 4];
    let b5 = s[off + 5];
    let b6 = s[off + 6];
    let b7 = s[off + 7];
    let out: u64 = ((b0 as u64) << 56u64) | ((b1 as u64) << 48u64) | ((b2 as u64) << 40u64) | ((
    b3 as u64) << 32u64) | ((b4 as u64) << 24u64) | ((b5 as u64) << 16u64) | ((b6 as u64) << 8u64)
        | (b7 as u64);
    proof {
        let sub = s@.subrange(off as int, off as int + 8);
        assert(sub[0] == b0 && sub[1] == b1 && sub[2] == b2 && sub[3] == b3 && sub[4] == b4
            && sub[5] == b5 && sub[6] == b6 && sub[7] == b7);
    }
    out
}

/// Encodes a claims record to bytes.
pub fn encode_claims(c: &Claims) -> (out: Vec<u8>)
    ensures
        out@ == spec_claims_bytes(c@),
{
    let mut out: Vec<u8> = Vec::new();
    push_u64_be(&mut out, c.issued_at);
    push_u64_be(&mut out, c.expires_at);
    out.push(role_byte(c.role));
    crate::bytes::extend(&mut out, &c.subject);
    proof {
        assert(out@ =~= spec_claims_bytes(c@));
    }
    out
}

/// Parses a claims record from bytes.
pub fn parse_claims(s: &Vec<u8>) -> (out: Option<Claims>)
    ensures
        match out {
            Some(c) => spec_parse_claims(s@) == Some(c@),
            None => spec_parse_claims(s@) is None,
        },
{
    if s.len() < 17 {
        return None;
    }
    let role = match role_of_byte(s[16]) {
        None => {
            return None;
        },
        Some(r) => r,
    };
    let issued_at = be_u64_at(s, 0);
    let expires_at = be_u64_at(s, 8);
    let mut subject: Vec<u8> = Vec::new();
    let mut k: usize = 17;
    while k < s.len()
        invariant
            17 <= k <= s@.len(),
            subject@ == s@.subrange(17, k as int),
        decreases s@.len() - k,
    {
        subject.push(s[k]);
        proof {
            assert(s@.subrange(17, k as int) + seq![s@[k as int]] =~= s@.subrange(17, k + 1));
        }
        k += 1;
    }
    proof {
        assert(subject@ =~= s@.skip(17));
    }
    Some(Claims { subject, role, issued_at, expires_at })
}

} // verus!
