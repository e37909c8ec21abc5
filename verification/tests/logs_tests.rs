use coraos::logs::{entries_from_journal, journal_line_entry, journal_query_args, units_from_output, LogQuery};

fn strings(v: &[&str]) -> Vec<String> {
    v.iter().map(|s| s.to_string()).collect()
}

fn query() -> LogQuery {
    LogQuery { unit: None, priority: None, lines: None, since: None, until: None, search: None }
}

#[test]
fn default_journal_arguments() {
    assert_eq!(journal_query_args(&query()), strings(&["--no-pager", "--output=json", "--lines=100"]));
}

#[test]
fn journal_arguments_with_filters() {
    let q = LogQuery {
        unit: Some("nginx.service".into()),
        priority: Some("err".into()),
        lines: Some(5000),
        since: Some("today".into()),
        until: Some("1 hour ago".into()),
        search: Some("x".into()),
    };
    assert_eq!(
        journal_query_args(&q),
        strings(&["--no-pager", "--output=json", "--unit=nginx.service", "--priority=err", "--lines=1000", "--since=today", "--until=1 hour ago"])
    );
    let q = LogQuery { unit: Some("bad unit;".into()), priority: Some("loud".into()), lines: Some(7), ..query() };
    assert_eq!(journal_query_args(&q), strings(&["--no-pager", "--output=json", "--lines=7"]));
}

#[test]
fn journal_lines_become_entries() {
    let e = journal_line_entry(r#"{"__REALTIME_TIMESTAMP":"1700","_SYSTEMD_UNIT":"ssh.service","PRIORITY":"3","MESSAGE":"boom"}"#).unwrap();
    assert_eq!((e.timestamp.as_str(), e.unit.as_str(), e.priority.as_str(), e.message.as_str()), ("1700", "ssh.service", "3", "boom"));
    let e = journal_line_entry(r#"{"SYSLOG_IDENTIFIER":"kernel","MESSAGE":[1,2]}"#).unwrap();
    assert_eq!((e.timestamp.as_str(), e.unit.as_str(), e.priority.as_str(), e.message.as_str()), ("", "kernel", "6", ""));
    let e = journal_line_entry(r#"{"_SYSTEMD_UNIT":5,"SYSLOG_IDENTIFIER":"kernel"}"#).unwrap();
    assert_eq!(e.unit, "unknown");
    let e = journal_line_entry("{}").unwrap();
    assert_eq!(e.unit, "unknown");
    assert!(journal_line_entry("   ").is_none());
    assert!(journal_line_entry("not json").is_none());
}

#[test]
fn search_is_case_insensitive_on_message_and_unit() {
    let out = "{\"MESSAGE\":\"Disk FULL\",\"_SYSTEMD_UNIT\":\"a\"}\n\n{\"MESSAGE\":\"ok\",\"_SYSTEMD_UNIT\":\"Backup\"}\n{\"MESSAGE\":\"other\"}\n";
    let all = entries_from_journal(out, &None);
    assert_eq!(all.len(), 3);
    let full = entries_from_journal(out, &Some("full".into()));
    assert_eq!(full.len(), 1);
    assert_eq!(full[0].message, "Disk FULL");
    let backup = entries_from_journal(out, &Some("BACKUP".into()));
    assert_eq!(backup.len(), 1);
    assert_eq!(backup[0].unit, "Backup");
}

#[test]
fn unit_list_trims_and_skips_blank_lines() {
    assert_eq!(units_from_output("  a.service \n\n b.service\n   \n"), strings(&["a.service", "b.service"]));
}
