use coraos::access::AuthenticatedUser;
use coraos::accounts::{
    check_create_user, check_delete_user, check_list_users, check_login, check_update_user,
    check_user_access, created_user_response, deleted_or_not_found, failed_login_details,
    login_refused, new_user_record, require_user_found, role_audit_details, user_or_not_found,
    user_update_changes, UserChange, UserRequestError,
};
use coraos::audit::{AuditFilter, AuditLogQuery};
use coraos::auth::verify_password;
use coraos::backup::{
    backup_file_path, check_backup_name, check_create_request, check_delete_request,
    check_include_paths, completed_backup, safe_backup_name, tar_args, tar_failure, BackupError,
    BackupStatus, CreateBackupRequest,
};
use coraos::clock::UtcInstant;
use coraos::config::{generate_secret, parse_port, stored_secret, AppConfig};
use coraos::console::{
    command_line, cpu_label, cpu_model, format_uptime, memory_percent, menu_choice, menu_commands,
    power_choice, MenuChoice, PowerChoice,
};
use coraos::system::{bytes_to_mib, check_config_update, config_audit_details, config_updated_message, UpdateConfigRequest};
use coraos::user::{CreateUserRequest, FieldError, LoginRequest, UpdateUserRequest};

fn strings(v: &[&str]) -> Vec<String> {
    v.iter().map(|s| s.to_string()).collect()
}

fn caller(id: &str, role: &str) -> AuthenticatedUser {
    AuthenticatedUser { user_id: id.into(), username: "x".into(), role: role.into() }
}

#[test]
fn port_defaults_to_8080() {
    assert_eq!(parse_port(None), 8080);
    assert_eq!(parse_port(Some("9000")), 9000);
    assert_eq!(parse_port(Some("http")), 8080);
    assert_eq!(parse_port(Some("70000")), 8080);
}

#[test]
fn config_defaults_and_bind_address() {
    let c = AppConfig::with_defaults(8080, "/srv/data/coraos.db", "s".into(), "b".into(), "l".into(), "f".into());
    assert_eq!(c.host, "0.0.0.0");
    assert_eq!(c.database_url, "sqlite:/srv/data/coraos.db?mode=rwc");
    assert_eq!(c.jwt_expiration_hours, 24);
    assert_eq!(c.bind_address(), "0.0.0.0:8080");
}

#[test]
fn secrets_are_generated_and_read_back() {
    let s = generate_secret();
    assert_eq!(s.len(), 128);
    assert!(s.chars().all(|c| c.is_ascii_hexdigit() && !c.is_ascii_uppercase()));
    assert_ne!(s, generate_secret());
    assert_eq!(stored_secret(&s), Some(s.clone()));
    assert_eq!(stored_secret(&format!("  {}\n", s)), Some(s));
    assert_eq!(stored_secret("short"), None);
    assert_eq!(stored_secret(&format!(" {} ", "x".repeat(31))), None);
    assert_eq!(stored_secret(&"x".repeat(32)), Some("x".repeat(32)));
}

#[test]
fn audit_windows() {
    let q = |page: Option<u32>, per: Option<u32>, user: Option<&str>, action: Option<&str>| AuditLogQuery {
        user_id: user.map(|s| s.into()),
        action: action.map(|s| s.into()),
        page,
        per_page: per,
        since: None,
        until: None,
    };
    let w = q(None, None, None, None).window();
    assert_eq!((w.limit, w.offset), (50, 0));
    assert!(matches!(w.filter, AuditFilter::All));
    let w = q(Some(3), Some(500), Some("u"), None).window();
    assert_eq!((w.limit, w.offset), (200, 400));
    assert!(matches!(w.filter, AuditFilter::User(ref u) if u == "u"));
    let w = q(Some(0), Some(10), Some("u"), Some("login")).window();
    assert_eq!((w.limit, w.offset), (10, 0));
    assert!(matches!(w.filter, AuditFilter::UserAndAction(_, ref a) if a == "login"));
    let w = q(Some(2), Some(0), None, Some("x")).window();
    assert_eq!((w.limit, w.offset), (0, 0));
    assert!(matches!(w.filter, AuditFilter::Action(_)));
    assert_eq!(q(Some(0), Some(500), None, None).shown_page(), (0, 500));
    assert_eq!(q(None, None, None, None).shown_page(), (1, 50));
}

#[test]
fn backup_checks() {
    let req = |name: &str, paths: &[&str]| CreateBackupRequest { name: name.into(), include_paths: strings(paths) };
    assert!(check_create_request(&caller("1", "operator"), &req("n", &["/etc"])).is_ok());
    let e = check_create_request(&caller("1", "viewer"), &req("n", &["/etc"])).err().unwrap();
    assert_eq!((e.status, e.message.as_str()), (403, "Operator access required to create backups"));
    let e = check_create_request(&caller("1", "guest"), &req("n", &["/etc"])).err().unwrap();
    assert_eq!(e.status, 403);
    let e = check_create_request(&caller("1", "admin"), &req("", &["/etc"])).err().unwrap();
    assert_eq!((e.status, e.message.as_str()), (400, "Backup name is required"));
    let e = check_create_request(&caller("1", "admin"), &req("n", &[])).err().unwrap();
    assert_eq!(e.message, "At least one path to backup is required");
    assert!(check_delete_request(&caller("1", "admin")).is_ok());
    assert_eq!(check_delete_request(&caller("1", "operator")).err().unwrap().message, "Admin access required to delete backups");
    assert!(check_backup_name("weekly").is_ok());
    assert!(matches!(check_backup_name(""), Err(BackupError::NameLength)));
    assert!(check_backup_name(&"a".repeat(128)).is_ok());
    assert!(matches!(check_backup_name(&"é".repeat(65)), Err(BackupError::NameLength)));
    assert_eq!(BackupError::NameLength.message(), "Backup name must be 1-128 characters");
}

#[test]
fn backup_file_names() {
    assert_eq!(safe_backup_name("my backup/../x!_1-é"), "mybackupx_1-é");
    let now = UtcInstant { secs: 1_700_000_000, nanos: 123 };
    assert_eq!(
        backup_file_path("/var/backups", "Nightly run", now).ok(),
        Some("/var/backups/Nightlyrun_20231114_221320.tar.gz".to_string())
    );
    assert!(matches!(
        backup_file_path("/b", "n", UtcInstant { secs: i64::MAX, nanos: 0 }),
        Err(BackupError::TimeOutOfRange)
    ));
}

#[test]
fn backup_paths_and_tar() {
    let paths = strings(&["/etc", "/home/../root", "/missing"]);
    assert!(matches!(check_include_paths(&paths, &vec![true, true, false]), Err(BackupError::PathTraversal(ref p)) if p == "/home/../root"));
    assert!(matches!(check_include_paths(&paths, &vec![true, false, true]), Err(BackupError::PathMissing(ref p)) if p == "/home/../root"));
    assert!(check_include_paths(&strings(&["/etc"]), &vec![true]).is_ok());
    assert_eq!(BackupError::PathMissing("/x".into()).message(), "Path does not exist: /x");
    assert_eq!(BackupError::PathTraversal("/x".into()).message(), "Path traversal not allowed: /x");
    assert_eq!(tar_args("/b/a.tar.gz", &strings(&["/etc", "/var"])), strings(&["-czf", "/b/a.tar.gz", "/etc", "/var"]));
    assert_eq!(tar_failure("oops"), "Backup creation failed: oops");
    let b = completed_backup("id".into(), "n", "/b/a".into(), 42, "u", "t".into());
    assert_eq!((b.backup_type.as_str(), b.status.as_str(), b.created_by.as_deref()), ("manual", "completed", Some("u")));
    assert_eq!(BackupStatus::InProgress.as_str(), "in_progress");
    assert_eq!(BackupStatus::Failed.as_str(), "failed");
    assert_eq!(BackupStatus::Pending.as_str(), "pending");
    assert_eq!(BackupStatus::Completed.as_str(), "completed");
}

#[test]
fn config_update_checks() {
    let r = |k: &str, v: &str| UpdateConfigRequest { key: k.into(), value: v.into(), description: None };
    assert!(check_config_update(&caller("1", "admin"), &r("k", "v")).is_ok());
    assert_eq!(check_config_update(&caller("1", "operator"), &r("k", "v")).err().unwrap().message, "Admin access required to modify configuration");
    assert_eq!(check_config_update(&caller("1", "admin"), &r("", "v")).err().unwrap().message, "Configuration key must be 1-128 characters");
    assert_eq!(check_config_update(&caller("1", "admin"), &r(&"k".repeat(129), "v")).err().unwrap().status, 400);
    assert_eq!(check_config_update(&caller("1", "admin"), &r("k", &"v".repeat(4097))).err().unwrap().message, "Configuration value must not exceed 4096 characters");
    assert!(check_config_update(&caller("1", "admin"), &r("k", &"v".repeat(4096))).is_ok());
    assert_eq!(config_updated_message("site"), "Configuration 'site' updated");
    assert_eq!(config_audit_details("x"), "Set to: x");
    assert_eq!(bytes_to_mib(3 * 1024 * 1024 + 5), 3);
}

#[test]
fn console_figures() {
    assert_eq!(format_uptime(0), "0m");
    assert_eq!(format_uptime(59), "0m");
    assert_eq!(format_uptime(3 * 3600 + 5 * 60), "3h 5m");
    assert_eq!(format_uptime(2 * 86400 + 60), "2d 0h 1m");
    assert_eq!(format_uptime(86400), "1d 0h 0m");
    assert_eq!(memory_percent(512, 2048), 25);
    assert_eq!(memory_percent(5, 0), 0);
    assert_eq!(cpu_label(Some("  Intel Xeon  ")), "Intel Xeon");
    assert_eq!(cpu_label(Some("   ")), "CPU");
    assert_eq!(cpu_label(None), "CPU");
    assert_eq!(cpu_model(Some("   ")), "");
    assert_eq!(cpu_model(None), "Unknown");
}

#[test]
fn console_menus() {
    assert_eq!(menu_choice(" 1\n"), MenuChoice::Hardware);
    assert_eq!(menu_choice("0"), MenuChoice::Exit);
    assert_eq!(menu_choice("9"), MenuChoice::Power);
    assert_eq!(menu_choice("10"), MenuChoice::Other);
    assert_eq!(power_choice("2\n"), PowerChoice::Shutdown);
    assert_eq!(power_choice("3"), PowerChoice::Back);
    assert_eq!(power_choice("x"), PowerChoice::Other);
    let cmds = menu_commands(MenuChoice::Upgrade);
    assert_eq!(cmds.len(), 2);
    assert_eq!(command_line(&cmds[0]), "sudo apt update");
    assert_eq!(command_line(&cmds[1]), "sudo apt full-upgrade -y");
    assert_eq!(command_line(&menu_commands(MenuChoice::NetworkTui)[0]), "nmtui ");
    assert_eq!(command_line(&menu_commands(MenuChoice::Journal)[0]), "journalctl -n 80 --no-pager");
    assert!(menu_commands(MenuChoice::Hardware).is_empty());
}

fn create_req(role: Option<&str>) -> CreateUserRequest {
    CreateUserRequest {
        username: "carol".into(),
        password: "password1".into(),
        role: role.map(|s| s.into()),
        display_name: Some("Carol".into()),
        email: None,
    }
}

#[test]
fn user_routes() {
    assert!(check_list_users(&caller("1", "admin")).is_ok());
    assert_eq!(check_list_users(&caller("1", "viewer")).err().unwrap().status, 403);
    assert!(check_user_access(&caller("1", "viewer"), "1").is_ok());
    assert!(check_user_access(&caller("1", "viewer"), "2").is_err());
    assert!(matches!(check_create_user(&caller("1", "operator"), &create_req(None)), Err(UserRequestError::Api(ref e)) if e.message == "Admin access required to create users"));
    assert!(check_create_user(&caller("1", "admin"), &create_req(None)).is_ok());
    let mut bad = create_req(None);
    bad.username = "x".into();
    assert!(matches!(check_create_user(&caller("1", "admin"), &bad), Err(UserRequestError::Invalid(ref v)) if v == &vec![FieldError::UsernameLength]));
    assert!(matches!(new_user_record(&create_req(None), true, "id".into()), Err(UserRequestError::Api(ref e)) if e.status == 409 && e.message == "Username already exists"));
    let rec = new_user_record(&create_req(None), false, "id".into()).ok().unwrap();
    assert_eq!((rec.id.as_str(), rec.username.as_str(), rec.role.as_str()), ("id", "carol", "viewer"));
    assert!(matches!(verify_password("password1", &rec.password_hash), Ok(true)));
    assert!(matches!(new_user_record(&create_req(Some("root")), false, "id".into()), Err(UserRequestError::Api(ref e)) if e.status == 400 && e.message == "Invalid role. Must be: admin, operator, or viewer"));
    let resp = created_user_response(&rec, "now".into());
    assert!(resp.is_active && resp.last_login.is_none() && resp.created_at == "now");
    assert_eq!(role_audit_details("viewer"), "Role: viewer");
    assert_eq!(user_or_not_found(None).err().unwrap().status, 404);
}

#[test]
fn user_update_and_delete() {
    let req = UpdateUserRequest { role: Some("operator".into()), display_name: None, email: Some("a@b.io".into()), is_active: Some(false), password: Some("newpassword".into()) };
    assert!(check_update_user(&caller("1", "admin"), &req).is_ok());
    assert!(matches!(check_update_user(&caller("2", "viewer"), &req), Err(UserRequestError::Api(ref e)) if e.status == 403 && e.message == "Admin access required"));
    assert!(matches!(check_update_user(&caller("2", "operator"), &req), Err(UserRequestError::Api(ref e)) if e.status == 403));
    let cs = user_update_changes(&req).ok().unwrap();
    assert_eq!(cs.len(), 4);
    assert!(matches!(cs[0], UserChange::Role(ref r) if r == "operator"));
    assert!(matches!(cs[1], UserChange::Email(_)));
    assert!(matches!(cs[2], UserChange::IsActive(false)));
    assert!(matches!(cs[3], UserChange::Password(ref p) if p == "newpassword"));
    let bad = UpdateUserRequest { role: Some("god".into()), display_name: None, email: None, is_active: None, password: None };
    assert_eq!(user_update_changes(&bad).err().unwrap().message, "Invalid role");
    assert!(require_user_found(true).is_ok());
    assert_eq!(require_user_found(false).err().unwrap().message, "User not found");
    assert!(check_delete_user(&caller("1", "admin"), "2").is_ok());
    assert_eq!(check_delete_user(&caller("1", "admin"), "1").err().unwrap().message, "Cannot delete your own account");
    assert_eq!(check_delete_user(&caller("1", "operator"), "2").err().unwrap().status, 403);
    assert!(deleted_or_not_found(1).is_ok());
    assert_eq!(deleted_or_not_found(0).err().unwrap().status, 404);
}

#[test]
fn login_route() {
    assert!(check_login(&LoginRequest { username: "a".into(), password: "b".into() }).is_ok());
    assert!(matches!(check_login(&LoginRequest { username: "".into(), password: "b".into() }), Err(UserRequestError::Invalid(ref v)) if v == &vec![FieldError::UsernameRequired]));
    assert_eq!(failed_login_details("eve"), "Failed login for username: eve");
    let e = login_refused();
    assert_eq!((e.status, e.message.as_str()), (401, "Invalid username or password"));
}
