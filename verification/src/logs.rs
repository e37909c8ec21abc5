//! System logs: the `journalctl` query built from a log request, the entries read
//! back from its JSON output, and the list of units.
use vstd::prelude::*;

use crate::text::{
    chars_of, concat, contains, decimal, decimal_string, is_alphanumeric, lines, lowercase, owned,
    str_contains, str_eq, str_lines, trim, trimmed, unicode_alphanumeric, views, to_lowercase,
};

verus! {

/// Log query parameters.
pub struct LogQuery {
    pub unit: Option<String>,
    pub priority: Option<String>,
    pub lines: Option<u32>,
    pub since: Option<String>,
    pub until: Option<String>,
    pub search: Option<String>,
}

/// Log entry from journalctl.
pub struct LogEntry {
    pub timestamp: String,
    pub unit: String,
    pub priority: String,
    pub message: String,
}

#[verifier::ext_equal]
pub struct LogEntryView {
    pub timestamp: Seq<char>,
    pub unit: Seq<char>,
    pub priority: Seq<char>,
    pub message: Seq<char>,
}

impl View for LogEntry {
    type V = LogEntryView;

    open spec fn view(&self) -> LogEntryView {
        LogEntryView {
            timestamp: self.timestamp@,
            unit: self.unit@,
            priority: self.priority@,
            message: self.message@,
        }
    }
}

/// A unit name accepted as a filter: letters, digits, `-`, `_` and `.` only.
pub open spec fn unit_filter_ok(unit: Seq<char>) -> bool {
    forall|i: int|
        0 <= i < unit.len() ==> unicode_alphanumeric(#[trigger] unit[i]) || unit[i] == '-'
            || unit[i] == '_' || unit[i] == '.'
}

/// The priorities `journalctl` knows by name.
pub open spec fn priority_known(p: Seq<char>) -> bool {
    p == "emerg"@ || p == "alert"@ || p == "crit"@ || p == "err"@ || p == "warning"@ || p
        == "notice"@ || p == "info"@ || p == "debug"@
}

/// The number of lines asked for: 100 by default, at most 1000.
pub open spec fn line_limit(lines: Option<u32>) -> u32 {
    let n = match lines {
        Some(n) => n,
        None => 100,
    };
    if n < 1000 {
        n
    } else {
        1000
    }
}

/// The `journalctl` arguments of a query: JSON output without pager; the unit filter
/// when the unit name is acceptable; the priority filter when the priority is known
/// (others are ignored); the line limit; then the time bounds as given.
pub open spec fn journal_args(q: LogQuery) -> Seq<Seq<char>> {
    let a = seq!["--no-pager"@, "--output=json"@];
    let b = match q.unit {
        Some(u) => if unit_filter_ok(u@) {
            a.push("--unit="@ + u@)
        } else {
            a
        },
        None => a,
    };
    let c = match q.priority {
        Some(p) => if priority_known(p@) {
            b.push("--priority="@ + p@)
        } else {
            b
        },
        None => b,
    };
    let d = c.push("--lines="@ + decimal(line_limit(q.lines) as nat));
    let e = match q.since {
        Some(s) => d.push("--since="@ + s@),
        None => d,
    };
    match q.until {
        Some(u) => e.push("--until="@ + u@),
        None => e,
    }
}

/// How many arguments the unit filter adds: one for an acceptable unit name.
pub open spec fn unit_filter_count(q: LogQuery) -> int {
    match q.unit {
        Some(u) => if unit_filter_ok(u@) {
            1
        } else {
            0
        },
        None => 0,
    }
}

/// The arguments of a journal query start with `--no-pager --output=json`; a unit
/// name made of letters, digits, `-`, `_` and `.` follows as `--unit=<name>`; then
/// each of the eight priority names emerg, alert, crit, err, warning, notice, info and
/// debug follows as `--priority=<name>`, while any other priority is dropped and the
/// line limit comes next instead.
pub proof fn lemma_journal_filters(q: LogQuery)
    ensures
        journal_args(q).len() >= 3,
        journal_args(q)[0] == "--no-pager"@,
        journal_args(q)[1] == "--output=json"@,
        match q.unit {
            Some(u) => (forall|i: int|
                0 <= i < u@.len() ==> unicode_alphanumeric(#[trigger] u@[i]) || u@[i] == '-'
                    || u@[i] == '_' || u@[i] == '.') ==> journal_args(q)[2] == "--unit="@ + u@,
            None => true,
        },
        match q.priority {
            Some(p) => if p@ == "emerg"@ || p@ == "alert"@ || p@ == "crit"@ || p@ == "err"@ || p@
                == "warning"@ || p@ == "notice"@ || p@ == "info"@ || p@ == "debug"@ {
                journal_args(q)[2 + unit_filter_count(q)] == "--priority="@ + p@
            } else {
                journal_args(q)[2 + unit_filter_count(q)] == "--lines="@ + decimal(
                    line_limit(q.lines) as nat,
                )
            },
            None => journal_args(q)[2 + unit_filter_count(q)] == "--lines="@ + decimal(
                line_limit(q.lines) as nat,
            ),
        },
{
}

fn unit_filter_ok_exec(unit: &str) -> (b: bool)
    ensures
        b == unit_filter_ok(unit@),
{
    let v = chars_of(unit);
    let mut i: usize = 0;
    while i < v.len()
        invariant
            i <= v@.len(),
            v@ == unit@,
            forall|k: int|
                0 <= k < i ==> unicode_alphanumeric(#[trigger] v@[k]) || v@[k] == '-' || v@[k]
                    == '_' || v@[k] == '.',
        decreases v@.len() - i,
    {
        let c = v[i];
        if !(is_alphanumeric(c) || c == '-' || c == '_' || c == '.') {
            return false;
        }
        i = i + 1;
    }
    true
}

fn priority_known_exec(p: &str) -> (b: bool)
    ensures
        b == priority_known(p@),
{
    str_eq(p, "emerg") || str_eq(p, "alert") || str_eq(p, "crit") || str_eq(p, "err") || str_eq(
        p,
        "warning",
    ) || str_eq(p, "notice") || str_eq(p, "info") || str_eq(p, "debug")
}

/// The arguments given to `journalctl` for a log query.
pub fn journal_query_args(q: &LogQuery) -> (r: Vec<String>)
    ensures
        views(r@) == journal_args(*q),
{
    let mut args: Vec<String> = vec![owned("--no-pager"), owned("--output=json")];
    assert(views(args@) =~= seq!["--no-pager"@, "--output=json"@]);
    let ghost before = args@;
    match &q.unit {
        Some(u) => {
            if unit_filter_ok_exec(u.as_str()) {
                args.push(concat("--unit=", u.as_str()));
            }
        },
        None => {},
    }
    assert(views(args@) =~= match q.unit {
        Some(u) => if unit_filter_ok(u@) {
            views(before).push("--unit="@ + u@)
        } else {
            views(before)
        },
        None => views(before),
    });
    let ghost before = args@;
    match &q.priority {
        Some(p) => {
            if priority_known_exec(p.as_str()) {
                args.push(concat("--priority=", p.as_str()));
            }
        },
        None => {},
    }
    assert(views(args@) =~= match q.priority {
        Some(p) => if priority_known(p@) {
            views(before).push("--priority="@ + p@)
        } else {
            views(before)
        },
        None => views(before),
    });
    let n = match q.lines {
        Some(n) => n,
        None => 100,
    };
    let n = if n < 1000 {
        n
    } else {
        1000
    };
    let ghost before = args@;
    args.push(concat("--lines=", decimal_string(n as u64).as_str()));
    assert(views(args@) =~= views(before).push("--lines="@ + decimal(line_limit(q.lines) as nat)));
    let ghost before = args@;
    match &q.since {
        Some(s) => args.push(concat("--since=", s.as_str())),
        None => {},
    }
    assert(views(args@) =~= match q.since {
        Some(s) => views(before).push("--since="@ + s@),
        None => views(before),
    });
    let ghost before = args@;
    match &q.until {
        Some(u) => args.push(concat("--until=", u.as_str())),
        None => {},
    }
    assert(views(args@) =~= match q.until {
        Some(u) => views(before).push("--until="@ + u@),
        None => views(before),
    });
    args
}

/// A member of a JSON object read as text.
pub enum JsonText {
    /// No member of that name (or the value is not an object).
    Missing,
    /// A member whose value is not a string.
    NotText,
    /// A string member.
    Text(String),
}

pub open spec fn json_text_view(r: Option<JsonText>) -> Option<Option<Option<Seq<char>>>> {
    match r {
        None => None,
        Some(JsonText::Missing) => Some(None),
        Some(JsonText::NotText) => Some(Some(None)),
        Some(JsonText::Text(s)) => Some(Some(Some(s@))),
    }
}

/// What `serde_json` reads from `line` for the member `key`: `None` when the line is not
/// JSON; `Some(None)` when there is no such member; `Some(Some(None))` when its value
/// is not a string; else the string.
pub uninterp spec fn json_member(line: Seq<char>, key: Seq<char>) -> Option<
    Option<Option<Seq<char>>>,
>;

/// Calls `serde_json::from_str::<Value>`, `Value::get` and `Value::as_str`. Trusted:
/// the outcome is `json_member(line, key)`.
#[verifier::external_body]
fn json_text_member(line: &str, key: &str) -> (r: Option<JsonText>)
    ensures
        json_text_view(r) == json_member(line@, key@),
{
    match serde_json::from_str::<serde_json::Value>(line) {
        Err(_) => None,
        Ok(v) => Some(match v.get(key) {
            None => JsonText::Missing,
            Some(m) => match m.as_str() {
                Some(s) => JsonText::Text(s.to_owned()),
                None => JsonText::NotText,
            },
        }),
    }
}

/// The string of a member, or `default` when it is missing or not a string.
pub open spec fn text_or(m: Option<Option<Option<Seq<char>>>>, default: Seq<char>) -> Seq<char> {
    match m {
        Some(Some(Some(s))) => s,
        _ => default,
    }
}

/// The entry a line of `journalctl --output=json` holds: none for a blank line or a
/// line that is not JSON. The unit is `_SYSTEMD_UNIT` when that member exists, else
/// `SYSLOG_IDENTIFIER`; a missing or non-string value reads `unknown`. The priority
/// defaults to `6`, the time and the message to empty text.
pub open spec fn journal_entry(line: Seq<char>) -> Option<LogEntryView> {
    if trim(line).len() == 0 || json_member(line, "__REALTIME_TIMESTAMP"@) is None {
        None
    } else {
        let unit = match json_member(line, "_SYSTEMD_UNIT"@) {
            Some(Some(u)) => match u {
                Some(s) => s,
                None => "unknown"@,
            },
            _ => text_or(json_member(line, "SYSLOG_IDENTIFIER"@), "unknown"@),
        };
        Some(
            LogEntryView {
                timestamp: text_or(json_member(line, "__REALTIME_TIMESTAMP"@), Seq::empty()),
                unit,
                priority: text_or(json_member(line, "PRIORITY"@), "6"@),
                message: text_or(json_member(line, "MESSAGE"@), Seq::empty()),
            },
        )
    }
}

/// Whether an entry passes the search: no search, or the lowercased search text occurs
/// in the lowercased message or in the lowercased unit.
pub open spec fn matches_search(e: LogEntryView, search: Option<Seq<char>>) -> bool {
    match search {
        None => true,
        Some(s) => contains(lowercase(e.message), lowercase(s)) || contains(
            lowercase(e.unit),
            lowercase(s),
        ),
    }
}

fn text_member_or(line: &str, key: &str, default: &str) -> (s: String)
    ensures
        s@ == text_or(json_member(line@, key@), default@),
{
    match json_text_member(line, key) {
        Some(JsonText::Text(t)) => t,
        _ => owned(default),
    }
}

/// Reads the entry of a line of `journalctl --output=json`.
pub fn journal_line_entry(line: &str) -> (r: Option<LogEntry>)
    ensures
        match r {
            Some(e) => journal_entry(line@) == Some(e@),
            None => journal_entry(line@) is None,
        },
{
    if chars_of(trimmed(line).as_str()).len() == 0 {
        return None;
    }
    let timestamp = match json_text_member(line, "__REALTIME_TIMESTAMP") {
        None => return None,
        Some(JsonText::Text(t)) => t,
        Some(_) => String::new(),
    };
    let unit = match json_text_member(line, "_SYSTEMD_UNIT") {
        Some(JsonText::Text(u)) => u,
        Some(JsonText::NotText) => owned("unknown"),
        _ => text_member_or(line, "SYSLOG_IDENTIFIER", "unknown"),
    };
    let priority = text_member_or(line, "PRIORITY", "6");
    let message = text_member_or(line, "MESSAGE", "");
    let e = LogEntry { timestamp, unit, priority, message };
    proof {
        reveal_strlit("");
        let v = journal_entry(line@).unwrap();
        assert(e@.message == v.message);
        assert(e@ =~= v);
    }
    Some(e)
}

/// Whether an entry passes the search text of a query.
pub fn passes_search(e: &LogEntry, search: &Option<String>) -> (b: bool)
    ensures
        b == matches_search(
            e@,
            match search {
                Some(s) => Some(s@),
                None => None,
            },
        ),
{
    match search {
        None => true,
        Some(s) => {
            let needle = to_lowercase(s.as_str());
            let msg = to_lowercase(e.message.as_str());
            let unit = to_lowercase(e.unit.as_str());
            str_contains(msg.as_str(), needle.as_str()) || str_contains(
                unit.as_str(),
                needle.as_str(),
            )
        },
    }
}

/// The entries of the lines that pass the search, in order.
pub open spec fn journal_entries(ls: Seq<Seq<char>>, search: Option<Seq<char>>) -> Seq<
    LogEntryView,
>
    decreases ls.len(),
{
    if ls.len() == 0 {
        Seq::empty()
    } else {
        let prev = journal_entries(ls.drop_last(), search);
        match journal_entry(ls.last()) {
            Some(e) => if matches_search(e, search) {
                prev.push(e)
            } else {
                prev
            },
            None => prev,
        }
    }
}

pub open spec fn entry_views(v: Seq<LogEntry>) -> Seq<LogEntryView> {
    v.map_values(|e: LogEntry| e@)
}

/// The log entries in the output of `journalctl --output=json` that pass the search.
pub fn entries_from_journal(stdout: &str, search: &Option<String>) -> (r: Vec<LogEntry>)
    ensures
        entry_views(r@) == journal_entries(
            lines(stdout@),
            match search {
                Some(s) => Some(s@),
                None => None,
            },
        ),
{
    let ghost sv = match search {
        Some(s) => Some(s@),
        None => None::<Seq<char>>,
    };
    let ls = str_lines(stdout);
    let mut out: Vec<LogEntry> = Vec::new();
    let mut i: usize = 0;
    while i < ls.len()
        invariant
            i <= ls@.len(),
            sv == match search {
                Some(s) => Some(s@),
                None => None,
            },
            entry_views(out@) == journal_entries(views(ls@).take(i as int), sv),
        decreases ls@.len() - i,
    {
        let ghost before = out@;
        assert(views(ls@).take(i + 1).drop_last() =~= views(ls@).take(i as int));
        assert(views(ls@).take(i + 1).last() == ls@[i as int]@);
        match journal_line_entry(ls[i].as_str()) {
            Some(e) => {
                if passes_search(&e, search) {
                    let ghost ev = e@;
                    out.push(e);
                    assert(entry_views(out@) =~= entry_views(before).push(ev));
                }
            },
            None => {},
        }
        i = i + 1;
    }
    assert(views(ls@).take(ls@.len() as int) =~= views(ls@));
    out
}

/// The units of a unit list: each non-blank line, trimmed.
pub open spec fn unit_list(ls: Seq<Seq<char>>) -> Seq<Seq<char>>
    decreases ls.len(),
{
    if ls.len() == 0 {
        Seq::empty()
    } else {
        let prev = unit_list(ls.drop_last());
        if trim(ls.last()).len() > 0 {
            prev.push(trim(ls.last()))
        } else {
            prev
        }
    }
}

/// The units in the output of `journalctl --field=_SYSTEMD_UNIT`.
pub fn units_from_output(stdout: &str) -> (r: Vec<String>)
    ensures
        views(r@) == unit_list(lines(stdout@)),
{
    let ls = str_lines(stdout);
    let mut out: Vec<String> = Vec::new();
    let mut i: usize = 0;
    while i < ls.len()
        invariant
            i <= ls@.len(),
            views(out@) == unit_list(views(ls@).take(i as int)),
        decreases ls@.len() - i,
    {
        let ghost before = out@;
        assert(views(ls@).take(i + 1).drop_last() =~= views(ls@).take(i as int));
        assert(views(ls@).take(i + 1).last() == ls@[i as int]@);
        let t = trimmed(ls[i].as_str());
        if chars_of(t.as_str()).len() > 0 {
            let ghost tv = t@;
            out.push(t);
            assert(views(out@) =~= views(before).push(tv));
        }
        i = i + 1;
    }
    assert(views(ls@).take(ls@.len() as int) =~= views(ls@));
    out
}

} // verus!
