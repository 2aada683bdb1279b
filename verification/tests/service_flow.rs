use royal_blobs_jwt::directory::init_users;
use royal_blobs_jwt::errors::{code_of, status_of, AuthError};
use royal_blobs_jwt::filter::authorize;
use royal_blobs_jwt::role::{role_geq, role_of_name, Role};
use royal_blobs_jwt::service::{login, login_response, resource_body, LoginRequest};
use royal_blobs_jwt::token::verify;

fn secret() -> Vec<u8> {
    b"a process-wide signing secret".to_vec()
}

fn bearer(token: &[u8]) -> Vec<u8> {
    let mut h = b"Bearer ".to_vec();
    h.extend_from_slice(token);
    h
}

#[test]
fn every_directory_identity_logs_in_and_verifies_back() {
    let dir = init_users();
    let s = secret();
    for u in dir.entries.iter() {
        let req = LoginRequest {
            identity: u.external_identity.clone(),
            service_id: u.partition_id.clone(),
        };
        let sealed = login(&dir, &s, &req, 1000).unwrap();
        let claims = verify(&s, &sealed.token, 1000).unwrap();
        assert_eq!(claims.subject, u.subject_id);
        assert_eq!(claims.role, u.role);
    }
}

#[test]
fn unmatched_credentials_fail_with_wrong_credentials() {
    let dir = init_users();
    let s = secret();
    let cases: Vec<(Vec<u8>, Vec<u8>)> = vec![
        (b"unknown@localhost".to_vec(), b"nope".to_vec()),
        // Right identity, wrong partition id.
        (b"nobody@localhost".to_vec(), b"wrong-partition".to_vec()),
        // Right partition id, wrong identity.
        (
            b"someone@localhost".to_vec(),
            b"5aae5619a4b33765800bc5f9bdd1be507fb".to_vec(),
        ),
        // Fields of two different entries must not cross-match.
        (
            b"nobody@localhost".to_vec(),
            b"3ec85f59dce67fc936d7f1e63466aea3b6c".to_vec(),
        ),
    ];
    for (identity, service_id) in cases {
        let req = LoginRequest { identity, service_id };
        assert_eq!(login(&dir, &s, &req, 0), Err(AuthError::WrongCredentials));
    }
    assert_eq!(status_of(AuthError::WrongCredentials), 403);
}

#[test]
fn login_scenario_for_the_user_entry() {
    let dir = init_users();
    let s = secret();
    let req = LoginRequest {
        identity: b"nobody@localhost".to_vec(),
        service_id: b"5aae5619a4b33765800bc5f9bdd1be507fb".to_vec(),
    };
    let sealed = login(&dir, &s, &req, 1000).unwrap();
    let resp = login_response(&sealed);
    let parts: Vec<&[u8]> = resp.responder.split(|b| *b == b'|').collect();
    assert_eq!(parts.len(), 3);
    assert!(parts.iter().all(|p| !p.is_empty()));
    assert_eq!(parts[1], &sealed.token[..]);

    // The middle part admits the subject on the user resource.
    let header = bearer(parts[1]);
    let sub = authorize(&s, Role::User, Some(&header), 1000).unwrap();
    assert_eq!(sub, b"1".to_vec());
    let body = resource_body(&sub, false);
    assert_eq!(body, b"royal_blobs_jwt_service 1".to_vec());

    // The same token is refused on the admin resource.
    let denied = authorize(&s, Role::Admin, Some(&header), 1000);
    assert_eq!(denied, Err(AuthError::InsufficientRole));
    assert_eq!(status_of(AuthError::InsufficientRole), 401);
}

#[test]
fn admin_token_is_accepted_by_the_user_filter() {
    let dir = init_users();
    let s = secret();
    let req = LoginRequest {
        identity: b"root@localhost".to_vec(),
        service_id: b"3ec85f59dce67fc936d7f1e63466aea3b6c".to_vec(),
    };
    let sealed = login(&dir, &s, &req, 0).unwrap();
    let header = bearer(&sealed.token);
    let on_user = authorize(&s, Role::User, Some(&header), 0).unwrap();
    assert_eq!(on_user, b"2".to_vec());
    let on_admin = authorize(&s, Role::Admin, Some(&header), 0).unwrap();
    assert_eq!(on_admin, b"2".to_vec());
    let body = resource_body(&on_admin, true);
    assert_eq!(body, b"royal_blobs_jwt_service ADMIN 2".to_vec());
}

#[test]
fn missing_header_is_rejected_as_no_auth() {
    let s = secret();
    let out = authorize(&s, Role::Admin, None, 0);
    assert_eq!(out, Err(AuthError::NoAuth));
    assert_eq!(status_of(AuthError::NoAuth), 401);
}

#[test]
fn malformed_bearer_scheme_is_rejected_as_no_auth() {
    let dir = init_users();
    let s = secret();
    let req = LoginRequest {
        identity: b"nobody@localhost".to_vec(),
        service_id: b"5aae5619a4b33765800bc5f9bdd1be507fb".to_vec(),
    };
    let sealed = login(&dir, &s, &req, 0).unwrap();
    let mut basic = b"Basic ".to_vec();
    basic.extend_from_slice(&sealed.token);
    assert_eq!(authorize(&s, Role::User, Some(&basic), 0), Err(AuthError::NoAuth));
    let short = b"Bearer".to_vec();
    assert_eq!(authorize(&s, Role::User, Some(&short), 0), Err(AuthError::NoAuth));
}

#[test]
fn expired_token_is_rejected_by_the_filter() {
    let dir = init_users();
    let s = secret();
    let req = LoginRequest {
        identity: b"nobody@localhost".to_vec(),
        service_id: b"5aae5619a4b33765800bc5f9bdd1be507fb".to_vec(),
    };
    let sealed = login(&dir, &s, &req, 1000).unwrap();
    let header = bearer(&sealed.token);
    let out = authorize(&s, Role::User, Some(&header), 1000 + 3600 + 1);
    assert_eq!(out, Err(AuthError::TokenExpired));
    assert_eq!(status_of(AuthError::TokenExpired), 401);
}

#[test]
fn garbled_bearer_token_is_rejected_as_invalid() {
    let s = secret();
    let header = bearer(b"not.a.token");
    let out = authorize(&s, Role::User, Some(&header), 0);
    assert_eq!(out, Err(AuthError::TokenInvalid));
    assert_eq!(status_of(AuthError::TokenInvalid), 401);
}

#[test]
fn statuses_and_codes_per_kind() {
    let kinds = [
        AuthError::WrongCredentials,
        AuthError::NoAuth,
        AuthError::TokenInvalid,
        AuthError::TokenExpired,
        AuthError::InsufficientRole,
        AuthError::SigningFailure,
    ];
    assert_eq!(status_of(AuthError::SigningFailure), 500);
    let codes: Vec<&str> = kinds.iter().map(|k| code_of(*k)).collect();
    for i in 0..codes.len() {
        for j in 0..codes.len() {
            if i != j {
                assert_ne!(codes[i], codes[j]);
            }
        }
    }
    assert_eq!(code_of(AuthError::WrongCredentials), "wrong credentials");
    assert_eq!(code_of(AuthError::NoAuth), "no auth header");
}

#[test]
fn role_names_and_ordering() {
    assert_eq!(role_of_name(&b"Admin".to_vec()), Role::Admin);
    assert_eq!(role_of_name(&b"User".to_vec()), Role::User);
    // The silent fallback the stored data relies on.
    assert_eq!(role_of_name(&b"Operator".to_vec()), Role::User);
    assert!(role_geq(Role::Admin, Role::User));
    assert!(role_geq(Role::Admin, Role::Admin));
    assert!(role_geq(Role::User, Role::User));
    assert!(!role_geq(Role::User, Role::Admin));
}

#[test]
fn directory_has_the_two_built_in_entries() {
    let dir = init_users();
    assert_eq!(dir.entries.len(), 2);
    let first = &dir.entries[0];
    assert_eq!(first.subject_id, b"1".to_vec());
    assert_eq!(first.display_handle, b"Hashmap for services mapping".to_vec());
    assert_eq!(first.external_identity, b"nobody@localhost".to_vec());
    assert_eq!(first.partition_id, b"5aae5619a4b33765800bc5f9bdd1be507fb".to_vec());
    assert_eq!(first.role, Role::User);
    let second = &dir.entries[1];
    assert_eq!(second.subject_id, b"2".to_vec());
    assert_eq!(second.external_identity, b"root@localhost".to_vec());
    assert_eq!(second.partition_id, b"3ec85f59dce67fc936d7f1e63466aea3b6c".to_vec());
    assert_eq!(second.role, Role::Admin);
}
