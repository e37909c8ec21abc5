use coraos::access::{
    admin_gate, authenticated_user, bearer_token, operator_gate, require_admin, require_operator, route_needs_token,
    require_admin_or_self, AuthenticatedUser,
};

fn caller(id: &str, role: &str) -> AuthenticatedUser {
    AuthenticatedUser { user_id: id.into(), username: "x".into(), role: role.into() }
}

#[test]
fn bearer_header_gives_token() {
    assert_eq!(bearer_token(Some("Bearer abc.def")).ok(), Some("abc.def".to_string()));
    assert_eq!(bearer_token(Some("Bearer ")).ok(), Some(String::new()));
    let e = bearer_token(Some("Basic abc")).err().unwrap();
    assert_eq!((e.status, e.message.as_str()), (401, "Missing or invalid authorization header"));
    let e = bearer_token(None).err().unwrap();
    assert_eq!(e.status, 401);
    let e = bearer_token(Some("bearer abc")).err().unwrap();
    assert_eq!(e.status, 401);
}

#[test]
fn claims_make_the_caller() {
    let u = authenticated_user(Some(("1".into(), "bob".into(), "operator".into()))).ok().unwrap();
    assert_eq!((u.user_id.as_str(), u.username.as_str(), u.role.as_str()), ("1", "bob", "operator"));
    let e = authenticated_user(None).err().unwrap();
    assert_eq!((e.status, e.message.as_str()), (401, "Invalid or expired token"));
}

#[test]
fn gates_by_role() {
    assert!(admin_gate(Some(&caller("1", "admin"))).is_ok());
    let e = admin_gate(Some(&caller("1", "operator"))).err().unwrap();
    assert_eq!((e.status, e.message.as_str()), (403, "Admin access required"));
    let e = admin_gate(None).err().unwrap();
    assert_eq!((e.status, e.message.as_str()), (401, "Authentication required"));
    assert!(operator_gate(Some(&caller("1", "admin"))).is_ok());
    assert!(operator_gate(Some(&caller("1", "operator"))).is_ok());
    let e = operator_gate(Some(&caller("1", "viewer"))).err().unwrap();
    assert_eq!((e.status, e.message.as_str()), (403, "Operator access required"));
    for role in ["admin", "operator", "viewer", "Admin", ""] {
        if admin_gate(Some(&caller("1", role))).is_ok() {
            assert!(operator_gate(Some(&caller("1", role))).is_ok());
        }
    }
}

#[test]
fn route_checks() {
    assert!(require_admin(&caller("1", "admin"), "m").is_ok());
    assert_eq!(require_admin(&caller("1", "ADMIN"), "m").err().unwrap().message, "m");
    assert!(require_operator(&caller("1", "operator"), "m").is_ok());
    assert!(require_operator(&caller("1", "admin"), "m").is_ok());
    assert_eq!(require_operator(&caller("1", "guest"), "m").err().unwrap().status, 403);
    assert_eq!(require_operator(&caller("1", "viewer"), "m").err().unwrap().message, "m");
    assert!(require_admin_or_self(&caller("7", "viewer"), "7", "m").is_ok());
    assert!(require_admin_or_self(&caller("7", "admin"), "8", "m").is_ok());
    assert!(require_admin_or_self(&caller("7", "viewer"), "8", "m").is_err());
}

#[test]
fn only_login_and_health_are_open_without_a_token() {
    assert!(!route_needs_token("/auth/login"));
    assert!(!route_needs_token("/health"));
    assert!(route_needs_token("/auth/me"));
    assert!(route_needs_token("/users/:id"));
    assert!(route_needs_token("/ws"));
}
