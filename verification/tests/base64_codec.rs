use royal_blobs_jwt::base64url::{b64u_decode, b64u_encode};

fn enc(input: &[u8]) -> Vec<u8> {
    b64u_encode(&input.to_vec())
}

#[test]
fn encode_empty_is_empty() {
    assert_eq!(enc(b""), b"".to_vec());
}

#[test]
fn encode_matches_reference_implementation() {
    let samples: Vec<Vec<u8>> = vec![
        b"f".to_vec(),
        b"fo".to_vec(),
        b"foo".to_vec(),
        b"foob".to_vec(),
        b"fooba".to_vec(),
        b"foobar".to_vec(),
        vec![0u8, 255u8, 128u8, 7u8, 63u8],
        (0u8..=255u8).collect(),
    ];
    for s in samples {
        let expected = base64::encode_config(&s, base64::URL_SAFE_NO_PAD).into_bytes();
        assert_eq!(b64u_encode(&s), expected);
    }
}

#[test]
fn decode_inverts_encode() {
    let samples: Vec<Vec<u8>> = vec![
        b"".to_vec(),
        b"a".to_vec(),
        b"ab".to_vec(),
        b"abc".to_vec(),
        b"abcd".to_vec(),
        (0u8..=255u8).collect(),
    ];
    for s in samples {
        let e = b64u_encode(&s);
        assert_eq!(b64u_decode(&e), Some(s));
    }
}

#[test]
fn decode_refuses_lone_trailing_byte() {
    assert_eq!(b64u_decode(&b"A".to_vec()), None);
    assert_eq!(b64u_decode(&b"AAAAB".to_vec()), None);
}

#[test]
fn decode_refuses_non_alphabet_bytes() {
    assert_eq!(b64u_decode(&b"!!".to_vec()), None);
    assert_eq!(b64u_decode(&b"A+".to_vec()), None);
    assert_eq!(b64u_decode(&b"A/".to_vec()), None);
    assert_eq!(b64u_decode(&b"A=".to_vec()), None);
}

#[test]
fn decode_refuses_nonzero_spare_bits() {
    // 'C' carries a nonzero low nibble in a two-byte tail.
    assert_eq!(b64u_decode(&b"AC".to_vec()), None);
    // 'B' carries a nonzero low pair in a three-byte tail.
    assert_eq!(b64u_decode(&b"AAB".to_vec()), None);
}
