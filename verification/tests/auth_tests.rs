use satsuki::auth::{
    change_password_core, hash_password, parse_basic_authorization, signin_check,
    verify_password, BasicAuthError,
};
use satsuki::error::AppError;
use satsuki::user::{is_unique_violation, profile_for, User};

fn sample_user(hash: &str) -> User {
    User {
        id: 7,
        subdomain: String::from("alice"),
        password_hash: String::from(hash),
        external_ns: false,
        external_ns1: None,
        external_ns2: None,
        external_ns3: None,
        external_ns4: None,
        external_ns5: None,
        external_ns6: None,
        created_at: 1_700_000_000,
        updated_at: 1_700_000_000,
        last_login_at: None,
    }
}

#[test]
fn hash_then_verify_round_trip() {
    let hash = hash_password("correct horse").unwrap();
    assert!(hash.starts_with('$'));
    assert_eq!(verify_password(&hash, "correct horse").unwrap(), true);
    assert_eq!(verify_password(&hash, "wrong horse").unwrap(), false);
}

#[test]
fn verify_rejects_unparsable_hash() {
    assert!(verify_password("not a hash", "anything").is_err());
}

#[test]
fn parses_basic_credentials() {
    // "user:pass" in the standard base64 alphabet
    let got = parse_basic_authorization("Basic dXNlcjpwYXNz").unwrap();
    assert_eq!(got.0, "user");
    assert_eq!(got.1, "pass");
    // password may itself contain a colon: split at the first one
    let got = parse_basic_authorization("Basic YTpiOmM=").unwrap();
    assert_eq!(got.0, "a");
    assert_eq!(got.1, "b:c");
}

#[test]
fn rejects_malformed_basic_credentials() {
    // each failure names its cause, so the boundary can answer 401 for the
    // wrong scheme and 400 for the malformed payloads
    assert_eq!(
        parse_basic_authorization("Bearer abc"),
        Err(BasicAuthError::NotBasic)
    );
    assert_eq!(parse_basic_authorization(""), Err(BasicAuthError::NotBasic));
    assert_eq!(
        parse_basic_authorization("Basic !!!not-base64!!!"),
        Err(BasicAuthError::InvalidBase64)
    );
    // 0xff 0xfe is valid base64 ("//4=") but not UTF-8
    assert_eq!(
        parse_basic_authorization("Basic //4="),
        Err(BasicAuthError::InvalidUtf8)
    );
    // "nopass" has no colon
    assert_eq!(
        parse_basic_authorization("Basic bm9wYXNz"),
        Err(BasicAuthError::MissingSeparator)
    );
}

#[test]
fn signin_accepts_correct_password() {
    let hash = hash_password("secret123").unwrap();
    let user = Some(sample_user(&hash));
    assert_eq!(signin_check(&user, "secret123").unwrap(), 7);
}

#[test]
fn signin_rejects_unknown_user_and_wrong_password() {
    match signin_check(&None, "whatever") {
        Err(AppError::Unauthorized) => {}
        other => panic!("expected unauthorized, got {:?}", other),
    }
    let hash = hash_password("secret123").unwrap();
    let user = Some(sample_user(&hash));
    match signin_check(&user, "not it") {
        Err(AppError::Unauthorized) => {}
        other => panic!("expected unauthorized, got {:?}", other),
    }
}

#[test]
fn change_password_requires_length_and_current() {
    let hash = hash_password("old password").unwrap();
    match change_password_core(&hash, "old password", "short") {
        Err(AppError::BadRequest(m)) => {
            assert_eq!(m, "new password must be at least 8 characters")
        }
        other => panic!("expected a bad-request error, got {:?}", other),
    }
    match change_password_core(&hash, "wrong", "long enough password") {
        Err(AppError::Unauthorized) => {}
        other => panic!("expected unauthorized, got {:?}", other),
    }
    let new_hash = change_password_core(&hash, "old password", "brand new password").unwrap();
    assert_eq!(verify_password(&new_hash, "brand new password").unwrap(), true);
    assert_eq!(verify_password(&new_hash, "old password").unwrap(), false);
}

#[test]
fn unique_violation_detection() {
    assert!(is_unique_violation("UNIQUE constraint failed: users.subdomain"));
    assert!(!is_unique_violation("database is locked"));
    assert!(!is_unique_violation("unique constraint (lowercase)"));
}

#[test]
fn profile_projects_user_fields() {
    let mut u = sample_user("$x");
    u.external_ns = true;
    u.external_ns1 = Some(String::from("ns1.example.org."));
    let p = profile_for(&u);
    assert_eq!(p.subdomain, "alice");
    assert!(p.external_ns);
    assert_eq!(p.external_ns1, Some(String::from("ns1.example.org.")));
    assert_eq!(p.external_ns2, None);
}

#[test]
fn error_status_codes_and_messages() {
    assert_eq!(AppError::bad_request("nope").status_code(), 400);
    assert_eq!(AppError::Unauthorized.status_code(), 401);
    assert_eq!(AppError::NotFound.status_code(), 404);
    assert_eq!(AppError::conflict("taken").status_code(), 409);
    assert_eq!(AppError::internal("boom").status_code(), 500);
    assert_eq!(AppError::bad_request("nope").message(), "nope");
    assert_eq!(AppError::Unauthorized.message(), "unauthorized");
    assert_eq!(AppError::NotFound.message(), "not found");
    assert_eq!(AppError::conflict("taken").message(), "taken");
    // upstream detail is flattened for callers
    assert_eq!(
        AppError::internal_anyhow(String::from("connection refused")).message(),
        "internal server error"
    );
}
