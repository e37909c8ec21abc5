use coraos::user::{
    CreateUserRequest, FieldError, LoginRequest, UpdateUserRequest, User, UserResponse, UserRole,
};

#[test]
fn role_names_read_back() {
    for r in [UserRole::Admin, UserRole::Operator, UserRole::Viewer] {
        assert_eq!(UserRole::from_str(r.as_str()), r);
    }
    assert_eq!(UserRole::Admin.as_str(), "admin");
    assert_eq!(UserRole::Operator.as_str(), "operator");
    assert_eq!(UserRole::Viewer.as_str(), "viewer");
}

#[test]
fn role_parsing_ignores_case_and_defaults_to_viewer() {
    assert_eq!(UserRole::from_str("ADMIN"), UserRole::Admin);
    assert_eq!(UserRole::from_str("Operator"), UserRole::Operator);
    assert_eq!(UserRole::from_str("root"), UserRole::Viewer);
    assert_eq!(UserRole::from_str(" admin"), UserRole::Viewer);
    assert_eq!(UserRole::from_str(""), UserRole::Viewer);
}

#[test]
fn permissions_are_ordered() {
    let all = [UserRole::Admin, UserRole::Operator, UserRole::Viewer];
    for a in all {
        assert!(a.has_permission(&a));
        assert!(UserRole::Admin.has_permission(&a));
        assert!(a.has_permission(&UserRole::Viewer));
        for b in all {
            assert!(a.has_permission(&b) || b.has_permission(&a));
        }
    }
    assert!(!UserRole::Viewer.has_permission(&UserRole::Operator));
    assert!(!UserRole::Operator.has_permission(&UserRole::Admin));
    assert!(UserRole::Operator.has_permission(&UserRole::Viewer));
}

fn user() -> User {
    User {
        id: "u1".into(),
        username: "alice".into(),
        password_hash: "secret-hash".into(),
        role: "viewer".into(),
        display_name: Some("Alice".into()),
        email: None,
        is_active: true,
        created_at: "2024-01-01".into(),
        updated_at: "2024-02-02".into(),
        last_login: Some("2024-03-03".into()),
    }
}

#[test]
fn response_keeps_public_fields() {
    let r = UserResponse::from(user());
    assert_eq!(r.id, "u1");
    assert_eq!(r.username, "alice");
    assert_eq!(r.role, "viewer");
    assert_eq!(r.display_name.as_deref(), Some("Alice"));
    assert_eq!(r.email, None);
    assert!(r.is_active);
    assert_eq!(r.created_at, "2024-01-01");
    assert_eq!(r.last_login.as_deref(), Some("2024-03-03"));
}

fn create(username: &str, password: &str, display: Option<&str>, email: Option<&str>) -> CreateUserRequest {
    CreateUserRequest {
        username: username.into(),
        password: password.into(),
        role: None,
        display_name: display.map(|s| s.into()),
        email: email.map(|s| s.into()),
    }
}

#[test]
fn create_request_rules() {
    assert!(create("bob", "password", None, None).validate().is_ok());
    assert!(create("bob", "password", Some(&"x".repeat(64)), Some("bob@example.com")).validate().is_ok());
    assert_eq!(
        create("bo", "short", Some(&"x".repeat(65)), Some("not-an-email")).validate(),
        Err(vec![
            FieldError::UsernameLength,
            FieldError::PasswordLength,
            FieldError::DisplayNameLength,
            FieldError::EmailFormat
        ])
    );
    assert_eq!(
        create(&"u".repeat(33), &"p".repeat(129), None, None).validate(),
        Err(vec![FieldError::UsernameLength, FieldError::PasswordLength])
    );
    // lengths count characters, not bytes
    assert!(create("ééé", "éééééééé", None, None).validate().is_ok());
    assert_eq!(create("bob", "password", None, Some("")).validate(), Err(vec![FieldError::EmailFormat]));
}

#[test]
fn update_request_rules() {
    let ok = UpdateUserRequest { role: None, display_name: None, email: None, is_active: None, password: None };
    assert!(ok.validate().is_ok());
    let bad = UpdateUserRequest {
        role: Some("root".into()),
        display_name: Some("y".repeat(70)),
        email: Some("x@".into()),
        is_active: Some(false),
        password: Some("1234567".into()),
    };
    assert_eq!(
        bad.validate(),
        Err(vec![FieldError::DisplayNameLength, FieldError::EmailFormat, FieldError::PasswordLength])
    );
}

#[test]
fn login_request_rules() {
    let ok = LoginRequest { username: "a".into(), password: "b".into() };
    assert!(ok.validate().is_ok());
    let bad = LoginRequest { username: "".into(), password: "".into() };
    assert_eq!(bad.validate(), Err(vec![FieldError::UsernameRequired, FieldError::PasswordRequired]));
}

#[test]
fn field_error_descriptions() {
    assert_eq!(FieldError::UsernameLength.field(), "username");
    assert_eq!(FieldError::UsernameLength.code(), "length");
    assert_eq!(FieldError::UsernameLength.message(), Some("Username must be 3-32 characters"));
    assert_eq!(FieldError::PasswordLength.message(), Some("Password must be 8-128 characters"));
    assert_eq!(FieldError::EmailFormat.code(), "email");
    assert_eq!(FieldError::EmailFormat.message(), Some("Invalid email format"));
    assert_eq!(FieldError::DisplayNameLength.message(), None);
    assert_eq!(FieldError::DisplayNameLength.bounds(), (None, Some(64)));
    assert_eq!(FieldError::UsernameRequired.message(), Some("Username is required"));
}
