use coraos::auth::{
    check_credentials, default_admin, generate_token, hash_password, token_claims,
    validate_token, verify_password, AuthError,
};
use coraos::clock::UtcInstant;
use coraos::user::User;

#[test]
fn hashed_password_verifies() {
    let h = hash_password("correct horse").ok().expect("hashing works");
    assert!(h.starts_with("$argon2id$"));
    assert!(matches!(verify_password("correct horse", &h), Ok(true)));
    assert!(matches!(verify_password("wrong horse", &h), Ok(false)));
}

#[test]
fn two_hashes_of_one_password_differ_but_both_verify() {
    let a = hash_password("pw").ok().unwrap();
    let b = hash_password("pw").ok().unwrap();
    assert_ne!(a, b);
    assert!(matches!(verify_password("pw", &a), Ok(true)));
    assert!(matches!(verify_password("pw", &b), Ok(true)));
}

#[test]
fn malformed_hash_is_an_error() {
    assert!(matches!(verify_password("pw", "not a hash"), Err(AuthError::InvalidHashFormat(_))));
}

fn stored(hash: String) -> User {
    User {
        id: "1".into(),
        username: "admin".into(),
        password_hash: hash,
        role: "admin".into(),
        display_name: None,
        email: None,
        is_active: true,
        created_at: String::new(),
        updated_at: String::new(),
        last_login: None,
    }
}

#[test]
fn credentials_decide_login() {
    let h = hash_password("admin123").ok().unwrap();
    assert!(matches!(check_credentials(None, "x"), Ok(None)));
    let ok = check_credentials(Some(stored(h.clone())), "admin123").ok().unwrap();
    assert_eq!(ok.map(|u| u.id), Some("1".to_string()));
    assert!(matches!(check_credentials(Some(stored(h)), "nope"), Ok(None)));
    assert!(matches!(
        check_credentials(Some(stored("bad".into())), "admin123"),
        Err(AuthError::InvalidHashFormat(_))
    ));
}

#[test]
fn default_admin_only_for_empty_table() {
    assert!(matches!(default_admin(3, "id".into()), Ok(None)));
    let rec = default_admin(0, "id-0".into()).ok().unwrap().unwrap();
    assert_eq!(rec.id, "id-0");
    assert_eq!(rec.username, "admin");
    assert_eq!(rec.role, "admin");
    assert_eq!(rec.display_name.as_deref(), Some("Administrator"));
    assert_eq!(rec.email, None);
    assert!(matches!(verify_password("admin123", &rec.password_hash), Ok(true)));
}

#[test]
fn token_claims_expire_after_the_given_hours() {
    let now = UtcInstant { secs: 1_700_000_000, nanos: 0 };
    let (c, text) = token_claims("u1", "alice", "viewer", now, 24).ok().unwrap();
    assert_eq!(c.sub, "u1");
    assert_eq!(c.username, "alice");
    assert_eq!(c.role, "viewer");
    assert_eq!(c.iat, 1_700_000_000);
    assert_eq!(c.exp, 1_700_086_400);
    assert_eq!(text, "2023-11-15T22:13:20+00:00");
}

#[test]
fn token_expiry_keeps_subseconds() {
    let now = UtcInstant { secs: 0, nanos: 500_000_000 };
    let (c, text) = token_claims("u", "n", "r", now, 1).ok().unwrap();
    assert_eq!(c.exp, 3600);
    assert_eq!(text, "1970-01-01T01:00:00.500+00:00");
}

#[test]
fn token_hours_are_read_as_signed() {
    let now = UtcInstant { secs: 1_700_000_000, nanos: 0 };
    let (c, _) = token_claims("u", "n", "r", now, u64::MAX).ok().unwrap();
    assert_eq!(c.exp, 1_700_000_000 - 3600);
    assert!(matches!(
        token_claims("u", "n", "r", now, 1u64 << 62),
        Err(AuthError::ExpiryOutOfRange)
    ));
    assert!(matches!(
        token_claims("u", "n", "r", now, 1u64 << 40),
        Err(AuthError::ExpiryOutOfRange)
    ));
}

#[test]
fn issued_token_validates_until_a_minute_past_expiry() {
    let now = UtcInstant { secs: 1_700_000_000, nanos: 0 };
    let (token, expires_at) =
        generate_token("u1", "alice", "operator", "s3cret", now, 24).ok().unwrap();
    assert_eq!(expires_at, "2023-11-15T22:13:20+00:00");
    assert_eq!(token.split('.').count(), 3);
    let c = validate_token(&token, "s3cret", now).ok().unwrap();
    assert_eq!((c.sub.as_str(), c.username.as_str(), c.role.as_str()), ("u1", "alice", "operator"));
    assert_eq!((c.exp, c.iat), (1_700_086_400, 1_700_000_000));
    let edge = UtcInstant { secs: 1_700_086_460, nanos: 0 };
    assert!(validate_token(&token, "s3cret", edge).is_ok());
    let late = UtcInstant { secs: 1_700_086_461, nanos: 0 };
    assert!(matches!(validate_token(&token, "s3cret", late), Err(AuthError::InvalidToken)));
}

#[test]
fn tokens_under_another_secret_or_malformed_are_refused() {
    let now = UtcInstant { secs: 1_700_000_000, nanos: 0 };
    let (token, _) = generate_token("u1", "alice", "admin", "s3cret", now, 1).ok().unwrap();
    assert!(matches!(validate_token(&token, "other", now), Err(AuthError::InvalidToken)));
    assert!(matches!(validate_token("not.a.token", "s3cret", now), Err(AuthError::InvalidToken)));
    assert!(matches!(validate_token("", "s3cret", now), Err(AuthError::InvalidToken)));
}

#[test]
fn token_generation_fails_only_for_an_unrepresentable_expiry() {
    let now = UtcInstant { secs: i64::MAX - 10, nanos: 0 };
    assert!(matches!(generate_token("u", "n", "r", "k", now, 1), Err(AuthError::ExpiryOutOfRange)));
}
