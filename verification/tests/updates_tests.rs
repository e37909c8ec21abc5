use coraos::updates::{parse_update_line, refresh_failure, updates_from_listing, upgrade_outcome};

#[test]
fn upgradable_line_parses() {
    let u = parse_update_line(
        "openssl/stable-security 3.0.11-1~deb12u2 amd64 [upgradable from: 3.0.11-1~deb12u1]",
    )
    .unwrap();
    assert_eq!(u.package, "openssl");
    assert_eq!(u.repository, "stable-security");
    assert_eq!(u.new_version, "3.0.11-1~deb12u2");
    assert_eq!(u.current_version, "3.0.11-1~deb12u1");
}

#[test]
fn upgradable_line_edge_cases() {
    let u = parse_update_line("pkg/repo 1.0").unwrap();
    assert_eq!(u.current_version, "unknown");
    let u = parse_update_line("pkg/repo 1.0 [upgradable from: 0.9").unwrap();
    assert_eq!(u.current_version, "0.9");
    let u = parse_update_line("a/b/c 2 x").unwrap();
    assert_eq!(u.package, "a");
    assert_eq!(u.repository, "b/c");
    assert!(parse_update_line("Listing... Done").is_none());
    assert!(parse_update_line("pkg/only").is_none());
}

#[test]
fn listing_skips_header() {
    let out = "Listing...\nvim/stable 9.1 amd64 [upgradable from: 9.0]\ncurl/stable 8.5 amd64 [upgradable from: 8.4]\n";
    let v = updates_from_listing(out);
    assert_eq!(v.len(), 2);
    assert_eq!(v[0].package, "vim");
    assert_eq!(v[1].current_version, "8.4");
    assert!(updates_from_listing("").is_empty());
    assert!(updates_from_listing("vim/stable 9.1 amd64").is_empty());
}

#[test]
fn command_outcomes() {
    assert_eq!(refresh_failure(" E: no network \n"), "apt-get update failed: E: no network");
    assert_eq!(upgrade_outcome(true, "done\n", "x"), Ok("done\n".to_string()));
    assert_eq!(
        upgrade_outcome(false, "", "\nE: locked\n"),
        Err("apt-get upgrade failed: E: locked".to_string())
    );
}
