use coraos::access::AuthenticatedUser;
use coraos::services::{
    audit_action_name, check_service_action, parse_service_line, past_tense,
    service_action_outcome, service_status_from_show, services_from_listing,
    validate_service_name, ServiceAction, ServiceNameError,
};

#[test]
fn action_names() {
    let all = [
        (ServiceAction::Start, "start", "started"),
        (ServiceAction::Stop, "stop", "stopped"),
        (ServiceAction::Restart, "restart", "restarted"),
        (ServiceAction::Enable, "enable", "enabled"),
        (ServiceAction::Disable, "disable", "disabled"),
    ];
    for (a, verb, done) in all {
        assert_eq!(a.as_str(), verb);
        assert_eq!(past_tense(&a), done);
        assert_eq!(audit_action_name(&a), format!("service_{}", verb));
    }
}

#[test]
fn service_names_are_checked() {
    assert_eq!(validate_service_name("nginx.service"), Ok(()));
    assert_eq!(validate_service_name("getty@tty1.service"), Ok(()));
    assert_eq!(validate_service_name("café"), Ok(()));
    assert_eq!(validate_service_name(""), Err(ServiceNameError::Length));
    assert_eq!(validate_service_name(&"a".repeat(257)), Err(ServiceNameError::Length));
    assert_eq!(validate_service_name(&"a".repeat(256)), Ok(()));
    assert_eq!(validate_service_name(&"é".repeat(129)), Err(ServiceNameError::Length));
    assert_eq!(validate_service_name("a;rm -rf /"), Err(ServiceNameError::Characters));
    assert_eq!(validate_service_name("a/b"), Err(ServiceNameError::Characters));
    assert_eq!(validate_service_name("../etc"), Err(ServiceNameError::Characters));
    assert_eq!(validate_service_name("a..b"), Err(ServiceNameError::PathTraversal));
    assert_eq!(
        ServiceNameError::Characters.message(),
        "Service name contains invalid characters. Only alphanumeric, -, _, ., @ allowed."
    );
    assert_eq!(ServiceNameError::Length.message(), "Invalid service name length");
    assert_eq!(
        ServiceNameError::PathTraversal.message(),
        "Service name must not contain path traversal"
    );
}

#[test]
fn list_unit_lines_parse() {
    let s = parse_service_line("ssh.service loaded active running OpenBSD Secure Shell server")
        .unwrap();
    assert_eq!(s.name, "ssh");
    assert_eq!(s.load_state, "loaded");
    assert_eq!(s.active_state, "active");
    assert_eq!(s.sub_state, "running");
    assert_eq!(s.description, "OpenBSD Secure Shell server");
    assert_eq!(s.unit_file_state, "");
    let t = parse_service_line("  x.service.service   loaded   inactive   dead  ").unwrap();
    assert_eq!(t.name, "x");
    assert_eq!(t.description, "");
    assert!(parse_service_line("a b c").is_none());
    assert!(parse_service_line("").is_none());
}

#[test]
fn listing_keeps_parsable_lines() {
    let out = "a.service loaded active running A\nbroken line\nb.service loaded failed failed B b\n";
    let v = services_from_listing(out);
    assert_eq!(v.len(), 2);
    assert_eq!(v[0].name, "a");
    assert_eq!(v[1].name, "b");
    assert_eq!(v[1].description, "B b");
}

#[test]
fn show_output_fills_status() {
    let out = "Id=ssh.service\nDescription=OpenSSH server\nLoadState=loaded\nActiveState=active\nSubState=running\nUnitFileState=enabled\nDescription=Second=one\n";
    let s = service_status_from_show("ssh", out);
    assert_eq!(s.name, "ssh");
    assert_eq!(s.description, "Second=one");
    assert_eq!(s.load_state, "loaded");
    assert_eq!(s.active_state, "active");
    assert_eq!(s.sub_state, "running");
    assert_eq!(s.unit_file_state, "enabled");
    let empty = service_status_from_show("x", "garbage");
    assert_eq!(empty.description, "");
}

#[test]
fn action_outcomes() {
    assert_eq!(
        service_action_outcome("nginx", &ServiceAction::Restart, true, "ignored"),
        Ok("Service 'nginx' restarted successfully".to_string())
    );
    assert_eq!(
        service_action_outcome("nginx", &ServiceAction::Stop, false, "  Unit not found.\n"),
        Err("Failed to stop service 'nginx': Unit not found.".to_string())
    );
}

#[test]
fn viewers_cannot_manage_services() {
    let u = |role: &str| AuthenticatedUser { user_id: "1".into(), username: "u".into(), role: role.into() };
    assert!(check_service_action(&u("operator")).is_ok());
    assert!(check_service_action(&u("admin")).is_ok());
    let e = check_service_action(&u("viewer")).err().unwrap();
    assert_eq!(e.status, 403);
    assert_eq!(e.message, "Operator or admin access required to manage services");
    assert_eq!(check_service_action(&u("guest")).err().unwrap().status, 403);
}
