//! The two base64 forms the service uses: the URL-safe unpadded form of a
//! token's segments (encoded and decoded here, verified), and the standard
//! padded form of the sealed credential's fields (stated here, computed by
//! an outside crate).
//!
//! Encoding is total; decoding accepts exactly the canonical encodings and
//! refuses every other byte string, so `spec_b64u_dec` inverts `spec_b64u`.

use vstd::prelude::*;

verus! {

/// The URL-safe alphabet: a 6-bit value (below 64) to its ASCII byte.
pub open spec fn spec_b64u_byte(v: u8) -> u8 {
    if v < 26 {
        (65 + v) as u8  // 'A'..='Z'
    } else if v < 52 {
        (71 + v) as u8  // 'a'..='z'
    } else if v < 62 {
        (v - 4) as u8  // '0'..='9'
    } else if v == 62 {
        45u8  // '-'
    } else {
        95u8  // '_'
    }
}

/// Inverse of the alphabet: any byte outside it decodes to nothing.
pub open spec fn spec_b64u_val(b: u8) -> Option<u8> {
    if 65 <= b && b <= 90 {
        Some((b - 65) as u8)
    } else if 97 <= b && b <= 122 {
        Some((b - 71) as u8)
    } else if 48 <= b && b <= 57 {
        Some((b + 4) as u8)
    } else if b == 45 {
        Some(62u8)
    } else if b == 95 {
        Some(63u8)
    } else {
        None
    }
}

/// The encoding: full three-byte groups become four alphabet bytes; a final
/// one- or two-byte group becomes two or three, with the spare bits zero.
pub open spec fn spec_b64u(s: Seq<u8>) -> Seq<u8>
    decreases s.len(),
{
    if s.len() == 0 {
        Seq::empty()
    } else if s.len() == 1 {
        seq![spec_b64u_byte(s[0] >> 2u8), spec_b64u_byte((s[0] & 3u8) << 4u8)]
    } else if s.len() == 2 {
        seq![
            spec_b64u_byte(s[0] >> 2u8),
            spec_b64u_byte(((s[0] & 3u8) << 4u8) | (s[1] >> 4u8)),
            spec_b64u_byte((s[1] & 15u8) << 2u8),
        ]
    } else {
        seq![
            spec_b64u_byte(s[0] >> 2u8),
            spec_b64u_byte(((s[0] & 3u8) << 4u8) | (s[1] >> 4u8)),
            spec_b64u_byte(((s[1] & 15u8) << 2u8) | (s[2] >> 6u8)),
            spec_b64u_byte(s[2] & 63u8),
        ] + spec_b64u(s.skip(3))
    }
}

/// The decoding: strict, so a non-alphabet byte, a lone trailing byte, or a
/// nonzero spare bit in the final group all refuse the input.
pub open spec fn spec_b64u_dec(s: Seq<u8>) -> Option<Seq<u8>>
    decreases s.len(),
{
    if s.len() == 0 {
        Some(Seq::empty())
    } else if s.len() == 1 {
        None
    } else if s.len() == 2 {
        match (spec_b64u_val(s[0]), spec_b64u_val(s[1])) {
            (Some(v0), Some(v1)) => if v1 & 15u8 == 0u8 {
                Some(seq![(v0 << 2u8) | (v1 >> 4u8)])
            } else {
                None
            },
            _ => None,
        }
    } else if s.len() == 3 {
        match (spec_b64u_val(s[0]), spec_b64u_val(s[1]), spec_b64u_val(s[2])) {
            (Some(v0), Some(v1), Some(v2)) => if v2 & 3u8 == 0u8 {
                Some(seq![(v0 << 2u8) | (v1 >> 4u8), ((v1 & 15u8) << 4u8) | (v2 >> 2u8)])
            } else {
                None
            },
            _ => None,
        }
    } else {
        match (spec_b64u_val(s[0]), spec_b64u_val(s[1]), spec_b64u_val(s[2]), spec_b64u_val(
            s[3],
        )) {
            (Some(v0), Some(v1), Some(v2), Some(v3)) => match spec_b64u_dec(s.skip(4)) {
                Some(rest) => Some(
                    seq![
                        (v0 << 2u8) | (v1 >> 4u8),
                        ((v1 & 15u8) << 4u8) | (v2 >> 2u8),
                        ((v2 & 3u8) << 6u8) | v3,
                    ] + rest,
                ),
                None => None,
            },
            _ => None,
        }
    }
}

/// Every alphabet byte maps back to the value it encodes.
pub proof fn lemma_b64u_byte_roundtrip(v: u8)
    requires
        v < 64,
    ensures
        spec_b64u_val(spec_b64u_byte(v)) == Some(v),
{
}

/// No alphabet byte is the dot that separates token segments, nor the bar
/// that separates the sealed credential's parts.
pub proof fn lemma_b64u_byte_not_reserved(v: u8)
    ensures
        spec_b64u_byte(v) != 46u8,
        spec_b64u_byte(v) != 124u8,
{
}

/// An encoding holds alphabet bytes only, so neither separator occurs in it.
pub proof fn lemma_b64u_no_reserved(s: Seq<u8>)
    ensures
        forall|i: int|
            0 <= i < spec_b64u(s).len() ==> spec_b64u(s)[i] != 46u8 && spec_b64u(s)[i] != 124u8,
    decreases s.len(),
{
    if s.len() == 0 {
    } else if s.len() == 1 {
        assert forall|i: int| 0 <= i < spec_b64u(s).len() implies spec_b64u(s)[i] != 46u8
            && spec_b64u(s)[i] != 124u8 by {
            lemma_b64u_byte_not_reserved(s[0] >> 2u8);
            lemma_b64u_byte_not_reserved((s[0] & 3u8) << 4u8);
        }
    } else if s.len() == 2 {
        assert forall|i: int| 0 <= i < spec_b64u(s).len() implies spec_b64u(s)[i] != 46u8
            && spec_b64u(s)[i] != 124u8 by {
            lemma_b64u_byte_not_reserved(s[0] >> 2u8);
            lemma_b64u_byte_not_reserved(((s[0] & 3u8) << 4u8) | (s[1] >> 4u8));
            lemma_b64u_byte_not_reserved((s[1] & 15u8) << 2u8);
        }
    } else {
        lemma_b64u_no_reserved(s.skip(3));
        assert forall|i: int| 0 <= i < spec_b64u(s).len() implies spec_b64u(s)[i] != 46u8
            && spec_b64u(s)[i] != 124u8 by {
            lemma_b64u_byte_not_reserved(s[0] >> 2u8);
            lemma_b64u_byte_not_reserved(((s[0] & 3u8) << 4u8) | (s[1] >> 4u8));
            lemma_b64u_byte_not_reserved(((s[1] & 15u8) << 2u8) | (s[2] >> 6u8));
            lemma_b64u_byte_not_reserved(s[2] & 63u8);
            if i >= 4 {
                assert(spec_b64u(s)[i] == spec_b64u(s.skip(3))[i - 4]);
            }
        }
    }
}

/// Bit identities of a full three-byte group: the four 6-bit values lie
/// below 64 and reassemble to the bytes they came from.
proof fn lemma_group_bits(b0: u8, b1: u8, b2: u8)
    by (bit_vector)
    ensures
        b0 >> 2u8 < 64,
        (((b0 & 3u8) << 4u8) | (b1 >> 4u8)) < 64,
        (((b1 & 15u8) << 2u8) | (b2 >> 6u8)) < 64,
        b2 & 63u8 < 64,
        ((b0 >> 2u8) << 2u8) | ((((b0 & 3u8) << 4u8) | (b1 >> 4u8)) >> 4u8) == b0,
        (((((b0 & 3u8) << 4u8) | (b1 >> 4u8)) & 15u8) << 4u8) | ((((b1 & 15u8) << 2u8) | (b2
            >> 6u8)) >> 2u8) == b1,
        (((((b1 & 15u8) << 2u8) | (b2 >> 6u8)) & 3u8) << 6u8) | (b2 & 63u8) == b2,
{
}

/// Bit identities of a final one-byte group.
proof fn lemma_tail1_bits(b0: u8)
    by (bit_vector)
    ensures
        b0 >> 2u8 < 64,
        ((b0 & 3u8) << 4u8) < 64,
        ((b0 & 3u8) << 4u8) & 15u8 == 0u8,
        ((b0 >> 2u8) << 2u8) | (((b0 & 3u8) << 4u8) >> 4u8) == b0,
{
}

/// Bit identities of a final two-byte group.
proof fn lemma_tail2_bits(b0: u8, b1: u8)
    by (bit_vector)
    ensures
        b0 >> 2u8 < 64,
        (((b0 & 3u8) << 4u8) | (b1 >> 4u8)) < 64,
        ((b1 & 15u8) << 2u8) < 64,
        ((b1 & 15u8) << 2u8) & 3u8 == 0u8,
        ((b0 >> 2u8) << 2u8) | ((((b0 & 3u8) << 4u8) | (b1 >> 4u8)) >> 4u8) == b0,
        (((((b0 & 3u8) << 4u8) | (b1 >> 4u8)) & 15u8) << 4u8) | ((((b1 & 15u8) << 2u8))
            >> 2u8) == b1,
{
}

/// Decoding inverts encoding: the round trip returns the input unchanged.
pub proof fn lemma_b64u_roundtrip(s: Seq<u8>)
    ensures
        spec_b64u_dec(spec_b64u(s)) == Some(s),
    decreases s.len(),
{
    let e = spec_b64u(s);
    if s.len() == 0 {
        assert(s =~= Seq::<u8>::empty());
    } else if s.len() == 1 {
        let b0 = s[0];
        let v0 = b0 >> 2u8;
        let v1 = (b0 & 3u8) << 4u8;
        lemma_tail1_bits(b0);
        lemma_b64u_byte_roundtrip(v0);
        lemma_b64u_byte_roundtrip(v1);
        assert(e.len() == 2);
        assert(seq![(v0 << 2u8) | (v1 >> 4u8)] =~= s);
    } else if s.len() == 2 {
        let b0 = s[0];
        let b1 = s[1];
        let v0 = b0 >> 2u8;
        let v1 = ((b0 & 3u8) << 4u8) | (b1 >> 4u8);
        let v2 = (b1 & 15u8) << 2u8;
        lemma_tail2_bits(b0, b1);
        lemma_b64u_byte_roundtrip(v0);
        lemma_b64u_byte_roundtrip(v1);
        lemma_b64u_byte_roundtrip(v2);
        assert(e.len() == 3);
        assert(seq![(v0 << 2u8) | (v1 >> 4u8), ((v1 & 15u8) << 4u8) | (v2 >> 2u8)] =~= s);
    } else {
        let rest = s.skip(3);
        lemma_b64u_roundtrip(rest);
        let b0 = s[0];
        let b1 = s[1];
        let b2 = s[2];
        let v0 = b0 >> 2u8;
        let v1 = ((b0 & 3u8) << 4u8) | (b1 >> 4u8);
        let v2 = ((b1 & 15u8) << 2u8) | (b2 >> 6u8);
        let v3 = b2 & 63u8;
        lemma_group_bits(b0, b1, b2);
        lemma_b64u_byte_roundtrip(v0);
        lemma_b64u_byte_roundtrip(v1);
        lemma_b64u_byte_roundtrip(v2);
        lemma_b64u_byte_roundtrip(v3);
        let er = spec_b64u(rest);
        assert(e.len() == 4 + er.len());
        assert(e[0] == spec_b64u_byte(v0));
        assert(e[1] == spec_b64u_byte(v1));
        assert(e[2] == spec_b64u_byte(v2));
        assert(e[3] == spec_b64u_byte(v3));
        assert(e.skip(4) =~= er);
        assert(spec_b64u_dec(e.skip(4)) == Some(rest));
        assert(seq![
            (v0 << 2u8) | (v1 >> 4u8),
            ((v1 & 15u8) << 4u8) | (v2 >> 2u8),
            ((v2 & 3u8) << 6u8) | v3,
        ] + rest =~= s);
    }
}

/// Executable alphabet map.
pub fn b64u_byte_of(v: u8) -> (out: u8)
    requires
        v < 64,
    ensures
        out == spec_b64u_byte(v),
{
    if v < 26 {
        65 + v
    } else if v < 52 {
        71 + v
    } else if v < 62 {
        v - 4
    } else if v == 62 {
        45
    } else {
        95
    }
}

/// Executable inverse alphabet map.
pub fn b64u_val_of(b: u8) -> (out: Option<u8>)
    ensures
        out == spec_b64u_val(b),
{
    if 65 <= b && b <= 90 {
        Some(b - 65)
    } else if 97 <= b && b <= 122 {
        Some(b - 71)
    } else if 48 <= b && b <= 57 {
        Some(b + 4)
    } else if b == 45 {
        Some(62)
    } else if b == 95 {
        Some(63)
    } else {
        None
    }
}

/// Encodes a byte vector into the URL-safe alphabet without padding.
pub fn b64u_encode(s: &Vec<u8>) -> (out: Vec<u8>)
    ensures
        out@ == spec_b64u(s@),
{
    let mut out: Vec<u8> = Vec::new();
    let mut i: usize = 0;
    proof {
        assert(s@.skip(0) =~= s@);
        assert(Seq::<u8>::empty() + spec_b64u(s@) =~= spec_b64u(s@));
    }
    while s.len() - i >= 3
        invariant
            i <= s.len(),
            spec_b64u(s@) == out@ + spec_b64u(s@.skip(i as int)),
        decreases s.len() - i,
    {
        let b0 = s[i];
        let b1 = s[i + 1];
        let b2 = s[i + 2];
        proof {
            lemma_group_bits(b0, b1, b2);
        }
        let ghost pre = out@;
        out.push(b64u_byte_of(b0 >> 2u8));
        out.push(b64u_byte_of(((b0 & 3u8) << 4u8) | (b1 >> 4u8)));
        out.push(b64u_byte_of(((b1 & 15u8) << 2u8) | (b2 >> 6u8)));
        out.push(b64u_byte_of(b2 & 63u8));
        proof {
            let tail = s@.skip(i as int);
            assert(tail[0] == b0 && tail[1] == b1 && tail[2] == b2);
            assert(tail.skip(3) =~= s@.skip(i as int + 3));
            assert(out@ =~= pre + seq![
                spec_b64u_byte(b0 >> 2u8),
                spec_b64u_byte(((b0 & 3u8) << 4u8) | (b1 >> 4u8)),
                spec_b64u_byte(((b1 & 15u8) << 2u8) | (b2 >> 6u8)),
                spec_b64u_byte(b2 & 63u8),
            ]);
            assert(spec_b64u(s@) =~= out@ + spec_b64u(s@.skip(i as int + 3)));
        }
        i += 3;
    }
    let rem = s.len() - i;
    if rem == 1 {
        let b0 = s[i];
        proof {
            lemma_tail1_bits(b0);
        }
        let ghost pre = out@;
        out.push(b64u_byte_of(b0 >> 2u8));
        out.push(b64u_byte_of((b0 & 3u8) << 4u8));
        proof {
            let tail = s@.skip(i as int);
            assert(tail[0] == b0);
            assert(out@ =~= pre + seq![
                spec_b64u_byte(b0 >> 2u8),
                spec_b64u_byte((b0 & 3u8) << 4u8),
            ]);
            assert(out@ =~= spec_b64u(s@));
        }
    } else if rem == 2 {
        let b0 = s[i];
        let b1 = s[i + 1];
        proof {
            lemma_tail2_bits(b0, b1);
        }
        let ghost pre = out@;
        out.push(b64u_byte_of(b0 >> 2u8));
        out.push(b64u_byte_of(((b0 & 3u8) << 4u8) | (b1 >> 4u8)));
        out.push(b64u_byte_of((b1 & 15u8) << 2u8));
        proof {
            let tail = s@.skip(i as int);
            assert(tail[0] == b0 && tail[1] == b1);
            assert(out@ =~= pre + seq![
                spec_b64u_byte(b0 >> 2u8),
                spec_b64u_byte(((b0 & 3u8) << 4u8) | (b1 >> 4u8)),
                spec_b64u_byte((b1 & 15u8) << 2u8),
            ]);
            assert(out@ =~= spec_b64u(s@));
        }
    } else {
        proof {
            assert(s@.skip(i as int).len() == 0);
            assert(out@ =~= out@ + spec_b64u(s@.skip(i as int)));
        }
    }
    out
}

/// The standard alphabet: as the URL-safe one, but with `+` and `/` for the
/// last two values.
pub open spec fn spec_b64s_byte(v: u8) -> u8 {
    if v < 62 {
        spec_b64u_byte(v)
    } else if v == 62 {
        43u8  // '+'
    } else {
        47u8  // '/'
    }
}

/// Standard base64 with `=` padding, the form `base64::encode` produces.
pub open spec fn spec_b64std(s: Seq<u8>) -> Seq<u8>
    decreases s.len(),
{
    if s.len() == 0 {
        Seq::empty()
    } else if s.len() == 1 {
        seq![spec_b64s_byte(s[0] >> 2u8), spec_b64s_byte((s[0] & 3u8) << 4u8), 61u8, 61u8]
    } else if s.len() == 2 {
        seq![
            spec_b64s_byte(s[0] >> 2u8),
            spec_b64s_byte(((s[0] & 3u8) << 4u8) | (s[1] >> 4u8)),
            spec_b64s_byte((s[1] & 15u8) << 2u8),
            61u8,
        ]
    } else {
        seq![
            spec_b64s_byte(s[0] >> 2u8),
            spec_b64s_byte(((s[0] & 3u8) << 4u8) | (s[1] >> 4u8)),
            spec_b64s_byte(((s[1] & 15u8) << 2u8) | (s[2] >> 6u8)),
            spec_b64s_byte(s[2] & 63u8),
        ] + spec_b64std(s.skip(3))
    }
}

/// No byte of a standard encoding is the bar that separates the sealed
/// credential's parts.
pub proof fn lemma_b64std_no_bar(s: Seq<u8>)
    ensures
        forall|i: int| 0 <= i < spec_b64std(s).len() ==> spec_b64std(s)[i] != 124u8,
    decreases s.len(),
{
    if s.len() == 0 {
    } else if s.len() == 1 {
        assert forall|i: int| 0 <= i < spec_b64std(s).len() implies spec_b64std(s)[i] != 124u8 by {
            lemma_b64s_byte_not_bar(s[0] >> 2u8);
            lemma_b64s_byte_not_bar((s[0] & 3u8) << 4u8);
        }
    } else if s.len() == 2 {
        assert forall|i: int| 0 <= i < spec_b64std(s).len() implies spec_b64std(s)[i] != 124u8 by {
            lemma_b64s_byte_not_bar(s[0] >> 2u8);
            lemma_b64s_byte_not_bar(((s[0] & 3u8) << 4u8) | (s[1] >> 4u8));
            lemma_b64s_byte_not_bar((s[1] & 15u8) << 2u8);
        }
    } else {
        lemma_b64std_no_bar(s.skip(3));
        assert forall|i: int| 0 <= i < spec_b64std(s).len() implies spec_b64std(s)[i] != 124u8 by {
            lemma_b64s_byte_not_bar(s[0] >> 2u8);
            lemma_b64s_byte_not_bar(((s[0] & 3u8) << 4u8) | (s[1] >> 4u8));
            lemma_b64s_byte_not_bar(((s[1] & 15u8) << 2u8) | (s[2] >> 6u8));
            lemma_b64s_byte_not_bar(s[2] & 63u8);
            if i >= 4 {
                assert(spec_b64std(s)[i] == spec_b64std(s.skip(3))[i - 4]);
            }
        }
    }
}

/// No alphabet byte of the standard form is the bar separator.
pub proof fn lemma_b64s_byte_not_bar(v: u8)
    ensures
        spec_b64s_byte(v) != 124u8,
{
}

/// Holds `Some(prefix + rest)` when `tail` decodes to `rest`, nothing when it
/// refuses: the shape of a partly decoded input.
pub open spec fn spec_opt_prepend(prefix: Seq<u8>, tail: Option<Seq<u8>>) -> Option<Seq<u8>> {
    match tail {
        Some(rest) => Some(prefix + rest),
        None => None,
    }
}

/// Decodes a URL-safe base64 byte vector, refusing every non-canonical input.
pub fn b64u_decode(s: &Vec<u8>) -> (out: Option<Vec<u8>>)
    ensures
        match out {
            Some(v) => spec_b64u_dec(s@) == Some(v@),
            None => spec_b64u_dec(s@) is None,
        },
{
    let mut out: Vec<u8> = Vec::new();
    let mut j: usize = 0;
    proof {
        assert(s@.skip(0) =~= s@);
        match spec_b64u_dec(s@) {
            Some(x) => {
                assert(Seq::<u8>::empty() + x =~= x);
            },
            None => {},
        }
    }
    while s.len() - j >= 4
        invariant
            j <= s.len(),
            spec_b64u_dec(s@) == spec_opt_prepend(out@, spec_b64u_dec(s@.skip(j as int))),
        decreases s.len() - j,
    {
        let c0 = b64u_val_of(s[j]);
        let c1 = b64u_val_of(s[j + 1]);
        let c2 = b64u_val_of(s[j + 2]);
        let c3 = b64u_val_of(s[j + 3]);
        proof {
            let tail = s@.skip(j as int);
            assert(tail[0] == s@[j as int] && tail[1] == s@[j as int + 1] && tail[2] == s@[j as int
                + 2] && tail[3] == s@[j as int + 3]);
            assert(tail.skip(4) =~= s@.skip(j as int + 4));
        }
        if c0.is_none() || c1.is_none() || c2.is_none() || c3.is_none() {
            return None;
        }
        let v0 = c0.unwrap();
        let v1 = c1.unwrap();
        let v2 = c2.unwrap();
        let v3 = c3.unwrap();
        let ghost pre = out@;
        out.push((v0 << 2u8) | (v1 >> 4u8));
        out.push(((v1 & 15u8) << 4u8) | (v2 >> 2u8));
        out.push(((v2 & 3u8) << 6u8) | v3);
        proof {
            let g = seq![
                (v0 << 2u8) | (v1 >> 4u8),
                ((v1 & 15u8) << 4u8) | (v2 >> 2u8),
                ((v2 & 3u8) << 6u8) | v3,
            ];
            assert(out@ =~= pre + g);
            match spec_b64u_dec(s@.skip(j as int + 4)) {
                Some(rest) => {
                    assert(pre + (g + rest) =~= (pre + g) + rest);
                },
                None => {},
            }
        }
        j += 4;
    }
    let rem = s.len() - j;
    if rem == 0 {
        proof {
            assert(s@.skip(j as int).len() == 0);
            assert(out@ + Seq::<u8>::empty() =~= out@);
        }
        Some(out)
    } else if rem == 1 {
        None
    } else if rem == 2 {
        proof {
            let tail = s@.skip(j as int);
            assert(tail[0] == s@[j as int] && tail[1] == s@[j as int + 1]);
        }
        let c0 = b64u_val_of(s[j]);
        let c1 = b64u_val_of(s[j + 1]);
        if c0.is_none() || c1.is_none() {
            return None;
        }
        let v0 = c0.unwrap();
        let v1 = c1.unwrap();
        if v1 & 15u8 != 0u8 {
            return None;
        }
        let ghost pre = out@;
        out.push((v0 << 2u8) | (v1 >> 4u8));
        proof {
            assert(out@ =~= pre + seq![(v0 << 2u8) | (v1 >> 4u8)]);
        }
        Some(out)
    } else {
        proof {
            let tail = s@.skip(j as int);
            assert(tail[0] == s@[j as int] && tail[1] == s@[j as int + 1] && tail[2] == s@[j as int
                + 2]);
        }
        let c0 = b64u_val_of(s[j]);
        let c1 = b64u_val_of(s[j + 1]);
        let c2 = b64u_val_of(s[j + 2]);
        if c0.is_none() || c1.is_none() || c2.is_none() {
            return None;
        }
        let v0 = c0.unwrap();
        let v1 = c1.unwrap();
        let v2 = c2.unwrap();
        if v2 & 3u8 != 0u8 {
            return None;
        }
        let ghost pre = out@;
        out.push((v0 << 2u8) | (v1 >> 4u8));
        out.push(((v1 & 15u8) << 4u8) | (v2 >> 2u8));
        proof {
            assert(out@ =~= pre + seq![(v0 << 2u8) | (v1 >> 4u8), ((v1 & 15u8) << 4u8) | (v2
                >> 2u8)]);
        }
        Some(out)
    }
}

} // verus!
