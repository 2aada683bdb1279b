use blake2::{Blake2b, Digest};
use royal_blobs_jwt::errors::AuthError;
use royal_blobs_jwt::role::Role;
use royal_blobs_jwt::seal::seal;
use royal_blobs_jwt::token::{issue, verify, TOKEN_VALIDITY_SECS};

fn secret() -> Vec<u8> {
    b"a process-wide signing secret".to_vec()
}

#[test]
fn issue_then_verify_round_trips() {
    let s = secret();
    let tok = issue(&s, &b"1".to_vec(), Role::User, 1000);
    let c = verify(&s, &tok, 1000).unwrap();
    assert_eq!(c.subject, b"1".to_vec());
    assert_eq!(c.role, Role::User);
    assert_eq!(c.issued_at, 1000);
    assert_eq!(c.expires_at, 1000 + TOKEN_VALIDITY_SECS);
}

#[test]
fn verify_succeeds_anywhere_in_window() {
    let s = secret();
    let tok = issue(&s, &b"2".to_vec(), Role::Admin, 5000);
    assert!(verify(&s, &tok, 0).is_ok());
    assert!(verify(&s, &tok, 5000).is_ok());
    assert!(verify(&s, &tok, 5000 + TOKEN_VALIDITY_SECS).is_ok());
}

#[test]
fn verify_expired_strictly_after_window() {
    let s = secret();
    let tok = issue(&s, &b"2".to_vec(), Role::Admin, 5000);
    let at = 5000 + TOKEN_VALIDITY_SECS + 1;
    assert_eq!(verify(&s, &tok, at), Err(AuthError::TokenExpired));
}

#[test]
fn verify_rejects_wrong_secret() {
    let s = secret();
    let tok = issue(&s, &b"1".to_vec(), Role::User, 1000);
    let other = b"some other secret".to_vec();
    assert_eq!(verify(&other, &tok, 1000), Err(AuthError::TokenInvalid));
}

#[test]
fn flipping_any_bit_of_the_signature_segment_invalidates() {
    let s = secret();
    let tok = issue(&s, &b"1".to_vec(), Role::User, 1000);
    let second_dot = tok
        .iter()
        .enumerate()
        .filter(|(_, b)| **b == b'.')
        .map(|(i, _)| i)
        .nth(1)
        .unwrap();
    for pos in (second_dot + 1)..tok.len() {
        for bit in 0..8u8 {
            let mut t2 = tok.clone();
            t2[pos] ^= 1u8 << bit;
            assert_eq!(verify(&s, &t2, 1000), Err(AuthError::TokenInvalid));
        }
    }
}

#[test]
fn verify_rejects_malformed_structure() {
    let s = secret();
    let bad: Vec<Vec<u8>> = vec![
        b"".to_vec(),
        b"nodots".to_vec(),
        b"one.dot".to_vec(),
        b"a.b.c.d".to_vec(),
        b"...".to_vec(),
        b"SFM1MTI.!!.AA".to_vec(),
    ];
    for t in bad {
        assert_eq!(verify(&s, &t, 0), Err(AuthError::TokenInvalid));
    }
}

#[test]
fn verify_rejects_wrong_header_segment() {
    let s = secret();
    let tok = issue(&s, &b"1".to_vec(), Role::User, 1000);
    let first_dot = tok.iter().position(|b| *b == b'.').unwrap();
    let mut t2: Vec<u8> = b"QUJD".to_vec();
    t2.extend_from_slice(&tok[first_dot..]);
    assert_eq!(verify(&s, &t2, 1000), Err(AuthError::TokenInvalid));
}

#[test]
fn signature_segment_is_hmac_sha512_of_signing_input() {
    let s = secret();
    let tok = issue(&s, &b"1".to_vec(), Role::User, 1000);
    let second_dot = tok
        .iter()
        .enumerate()
        .filter(|(_, b)| **b == b'.')
        .map(|(i, _)| i)
        .nth(1)
        .unwrap();
    let signing_input = &tok[..second_dot];
    let pkey = openssl::pkey::PKey::hmac(&s).unwrap();
    let mut signer =
        openssl::sign::Signer::new(openssl::hash::MessageDigest::sha512(), &pkey).unwrap();
    signer.update(signing_input).unwrap();
    let mac = signer.sign_to_vec().unwrap();
    let expected = base64::encode_config(&mac, base64::URL_SAFE_NO_PAD).into_bytes();
    assert_eq!(&tok[second_dot + 1..], &expected[..]);
}

#[test]
fn sealed_digest_is_base64_blake2b_of_token() {
    let s = secret();
    let tok = issue(&s, &b"1".to_vec(), Role::User, 1000);
    let sealed = seal(&tok).unwrap();
    assert_eq!(sealed.token, tok);
    let mut hasher = Blake2b::new();
    hasher.update(&tok);
    let digest = hasher.finalize();
    let expected = base64::encode(digest).into_bytes();
    assert_eq!(sealed.digest_b64, expected);
}

#[test]
fn seal_with_a_process_held_key_gives_verifiable_signatures() {
    let s = secret();
    let tok = issue(&s, &b"1".to_vec(), Role::User, 1000);
    let rsa = openssl::rsa::Rsa::generate(2048).unwrap();
    let key = openssl::pkey::PKey::from_rsa(rsa).unwrap();
    let sealed = royal_blobs_jwt::seal::seal_with_key(&key, &tok).unwrap();
    assert_eq!(sealed.token, tok);
    let mut hasher = Blake2b::new();
    hasher.update(&tok);
    let expected_digest = base64::encode(hasher.finalize()).into_bytes();
    assert_eq!(sealed.digest_b64, expected_digest);
    // Unlike the fresh-key seal, this signature can be checked against the
    // key's public half.
    let sig = base64::decode(&sealed.signature_b64).unwrap();
    let mut verifier =
        openssl::sign::Verifier::new(openssl::hash::MessageDigest::sha256(), &key).unwrap();
    verifier.update(&tok).unwrap();
    assert!(verifier.verify(&sig).unwrap());
}

#[test]
fn sealed_signature_decodes_to_one_rsa_signature_of_256_bytes() {
    let s = secret();
    let tok = issue(&s, &b"7".to_vec(), Role::Admin, 42);
    let sealed = seal(&tok).unwrap();
    let sig = base64::decode(&sealed.signature_b64).unwrap();
    assert_eq!(sig.len(), 256);
}
