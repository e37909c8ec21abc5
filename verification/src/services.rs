//! Systemd services: the actions on a unit, the check on unit names, and the
//! parsing of what `systemctl` prints.
use vstd::prelude::*;

use crate::access::{is_operator_or_admin, require_operator, ApiError, AuthenticatedUser, FORBIDDEN};

use crate::text::{
    byte_len, chars_of, concat, concat_all, concat_views, contains, contains_exec, is_alphanumeric,
    is_ascii_alnum, join, join_from, lines, owned, split_once, str_eq, str_lines, str_split_once,
    str_words, string_of_range, strip_suffixes, strip_suffixes_len, trim, trimmed,
    unicode_alphanumeric, views, words,
};

verus! {

/// Available service actions.
#[derive(PartialEq, Eq, Structural, Clone, Copy, Debug)]
pub enum ServiceAction {
    Start,
    Stop,
    Restart,
    Enable,
    Disable,
}

impl ServiceAction {
    /// The `systemctl` verb of the action.
    pub open spec fn verb(self) -> Seq<char> {
        match self {
            ServiceAction::Start => "start"@,
            ServiceAction::Stop => "stop"@,
            ServiceAction::Restart => "restart"@,
            ServiceAction::Enable => "enable"@,
            ServiceAction::Disable => "disable"@,
        }
    }

    /// The past tense of the verb.
    pub open spec fn done(self) -> Seq<char> {
        match self {
            ServiceAction::Start => "started"@,
            ServiceAction::Stop => "stopped"@,
            ServiceAction::Restart => "restarted"@,
            ServiceAction::Enable => "enabled"@,
            ServiceAction::Disable => "disabled"@,
        }
    }

    pub fn as_str(&self) -> (s: &str)
        ensures
            s@ == self.verb(),
    {
        match self {
            ServiceAction::Start => "start",
            ServiceAction::Stop => "stop",
            ServiceAction::Restart => "restart",
            ServiceAction::Enable => "enable",
            ServiceAction::Disable => "disable",
        }
    }
}

/// Distinct actions have distinct verbs.
pub proof fn lemma_action_verbs_distinct(a: ServiceAction, b: ServiceAction)
    ensures
        a.verb() == b.verb() ==> a == b,
        a.done() == b.done() ==> a == b,
{
    reveal_strlit("start");
    reveal_strlit("stop");
    reveal_strlit("restart");
    reveal_strlit("enable");
    reveal_strlit("disable");
    reveal_strlit("started");
    reveal_strlit("stopped");
    reveal_strlit("restarted");
    reveal_strlit("enabled");
    reveal_strlit("disabled");
    if a != b {
        assert(a.verb().len() != b.verb().len() || a.verb()[0] != b.verb()[0] || a.verb()[3]
            != b.verb()[3]);
        assert(a.done().len() != b.done().len() || a.done()[0] != b.done()[0] || a.done()[3]
            != b.done()[3]);
    }
}

/// Convert a service action to past tense for status messages.
pub fn past_tense(action: &ServiceAction) -> (s: &str)
    ensures
        s@ == action.done(),
{
    match action {
        ServiceAction::Start => "started",
        ServiceAction::Stop => "stopped",
        ServiceAction::Restart => "restarted",
        ServiceAction::Enable => "enabled",
        ServiceAction::Disable => "disabled",
    }
}

/// The name the audit log gives a service action: `service_<verb>`.
pub fn audit_action_name(action: &ServiceAction) -> (s: String)
    ensures
        s@ == "service_"@ + action.verb(),
{
    concat("service_", action.as_str())
}

/// Request to perform a service action.
pub struct ServiceActionRequest {
    pub service: String,
    pub action: ServiceAction,
}

/// Systemd service status.
pub struct ServiceInfo {
    pub name: String,
    pub description: String,
    pub load_state: String,
    pub active_state: String,
    pub sub_state: String,
    pub unit_file_state: String,
}

/// The text of the fields of a `ServiceInfo`.
pub struct ServiceInfoView {
    pub name: Seq<char>,
    pub description: Seq<char>,
    pub load_state: Seq<char>,
    pub active_state: Seq<char>,
    pub sub_state: Seq<char>,
    pub unit_file_state: Seq<char>,
}

impl View for ServiceInfo {
    type V = ServiceInfoView;

    open spec fn view(&self) -> ServiceInfoView {
        ServiceInfoView {
            name: self.name@,
            description: self.description@,
            load_state: self.load_state@,
            active_state: self.active_state@,
            sub_state: self.sub_state@,
            unit_file_state: self.unit_file_state@,
        }
    }
}

/// Why a service name is refused.
#[derive(PartialEq, Eq, Structural, Clone, Copy, Debug)]
pub enum ServiceNameError {
    /// Empty, or longer than 256 bytes.
    Length,
    /// A character other than a letter, a digit, `-`, `_`, `.` or `@`.
    Characters,
    /// Holds `..`.
    PathTraversal,
}

impl ServiceNameError {
    pub fn message(&self) -> (s: &'static str)
        ensures
            s@ == (match self {
                ServiceNameError::Length => "Invalid service name length"@,
                ServiceNameError::Characters =>
                    "Service name contains invalid characters. Only alphanumeric, -, _, ., @ allowed."@,
                ServiceNameError::PathTraversal => "Service name must not contain path traversal"@,
            }),
    {
        match self {
            ServiceNameError::Length => "Invalid service name length",
            ServiceNameError::Characters =>
                "Service name contains invalid characters. Only alphanumeric, -, _, ., @ allowed.",
            ServiceNameError::PathTraversal => "Service name must not contain path traversal",
        }
    }
}

/// A character allowed in a unit name.
pub open spec fn unit_name_char(c: char) -> bool {
    unicode_alphanumeric(c) || c == '-' || c == '_' || c == '.' || c == '@'
}

/// The verdict on a unit name: the length first, then the characters, then `..`.
pub open spec fn service_name_verdict(name: Seq<char>) -> Result<(), ServiceNameError> {
    if name.len() == 0 || byte_len(name) > 256 {
        Err(ServiceNameError::Length)
    } else if !(forall|i: int| 0 <= i < name.len() ==> unit_name_char(#[trigger] name[i])) {
        Err(ServiceNameError::Characters)
    } else if contains(name, ".."@) {
        Err(ServiceNameError::PathTraversal)
    } else {
        Ok(())
    }
}

/// Validate that a service name contains only safe characters. An accepted name
/// holds no `..`, and its only ASCII characters are letters, digits, `-`, `_`, `.`
/// and `@`: no white space, quote, slash or shell metacharacter.
pub fn validate_service_name(name: &str) -> (r: Result<(), ServiceNameError>)
    ensures
        r == service_name_verdict(name@),
        (0 < name@.len() && byte_len(name@) <= 256 && (forall|i: int|
            0 <= i < name@.len() ==> unicode_alphanumeric(#[trigger] name@[i]) || name@[i] == '-'
                || name@[i] == '_' || name@[i] == '.' || name@[i] == '@') && !contains(
            name@,
            ".."@,
        )) ==> r is Ok,
        r is Ok ==> !contains(name@, ".."@) && forall|i: int|
            0 <= i < name@.len() && name@[i] <= '\u{7f}' ==> is_ascii_alnum(#[trigger] name@[i])
                || name@[i] == '-' || name@[i] == '_' || name@[i] == '.' || name@[i] == '@',
{
    let v = chars_of(name);
    if v.len() == 0 || name.as_bytes().len() > 256 {
        return Err(ServiceNameError::Length);
    }
    let mut i: usize = 0;
    while i < v.len()
        invariant
            i <= v@.len(),
            v@ == name@,
            v@.len() > 0,
            byte_len(name@) <= 256,
            forall|k: int| 0 <= k < i ==> unit_name_char(#[trigger] v@[k]),
            forall|k: int|
                0 <= k < i && v@[k] <= '\u{7f}' ==> is_ascii_alnum(#[trigger] v@[k]) || v@[k]
                    == '-' || v@[k] == '_' || v@[k] == '.' || v@[k] == '@',
        decreases v@.len() - i,
    {
        let c = v[i];
        if !(is_alphanumeric(c) || c == '-' || c == '_' || c == '.' || c == '@') {
            assert(!unit_name_char(name@[i as int]));
            return Err(ServiceNameError::Characters);
        }
        i = i + 1;
    }
    let dots = chars_of("..");
    if contains_exec(&v, &dots) {
        return Err(ServiceNameError::PathTraversal);
    }
    Ok(())
}

/// The rules on unit names: a name of 1 to 256 bytes made only of letters, digits,
/// `-`, `_`, `.` and `@` and holding no `..` is accepted; an empty or longer name is
/// refused for its length; a name of the right length with any other character is
/// refused for its characters; and an otherwise acceptable name holding `..` is
/// refused as a path traversal.
pub proof fn lemma_service_name_rules(name: Seq<char>)
    ensures
        (0 < name.len() && byte_len(name) <= 256 && (forall|i: int|
            0 <= i < name.len() ==> unicode_alphanumeric(#[trigger] name[i]) || name[i] == '-'
                || name[i] == '_' || name[i] == '.' || name[i] == '@') && !contains(name, ".."@))
            ==> service_name_verdict(name) == Ok::<(), ServiceNameError>(()),
        (name.len() == 0 || byte_len(name) > 256) ==> service_name_verdict(name) == Err::<
            (),
            ServiceNameError,
        >(ServiceNameError::Length),
        (0 < name.len() && byte_len(name) <= 256 && (exists|i: int|
            0 <= i < name.len() && !(unicode_alphanumeric(#[trigger] name[i]) || name[i] == '-'
                || name[i] == '_' || name[i] == '.' || name[i] == '@'))) ==> service_name_verdict(
            name,
        ) == Err::<(), ServiceNameError>(ServiceNameError::Characters),
        (0 < name.len() && byte_len(name) <= 256 && (forall|i: int|
            0 <= i < name.len() ==> unicode_alphanumeric(#[trigger] name[i]) || name[i] == '-'
                || name[i] == '_' || name[i] == '.' || name[i] == '@') && contains(name, ".."@))
            ==> service_name_verdict(name) == Err::<(), ServiceNameError>(
            ServiceNameError::PathTraversal,
        ),
{
    if exists|i: int|
        0 <= i < name.len() && !(unicode_alphanumeric(#[trigger] name[i]) || name[i] == '-'
            || name[i] == '_' || name[i] == '.' || name[i] == '@') {
        let i = choose|i: int|
            0 <= i < name.len() && !(unicode_alphanumeric(#[trigger] name[i]) || name[i] == '-'
                || name[i] == '_' || name[i] == '.' || name[i] == '@');
        assert(!unit_name_char(name[i]));
    }
}

/// The `ServiceInfo` of a line of `systemctl list-units --plain --no-legend`: at
/// least four words (unit, load, active, sub), the unit without its `.service`
/// suffixes, and the remaining words joined by single spaces as the description.
pub open spec fn service_line(line: Seq<char>) -> Option<ServiceInfoView> {
    let w = words(line);
    if w.len() < 4 {
        None
    } else {
        Some(
            ServiceInfoView {
                name: strip_suffixes(w[0], ".service"@),
                description: join(w.subrange(4, w.len() as int), " "@),
                load_state: w[1],
                active_state: w[2],
                sub_state: w[3],
                unit_file_state: Seq::empty(),
            },
        )
    }
}

/// A listing line with at least four words gives a service whose load, active and
/// sub states are its second, third and fourth words, whose name is its first word
/// without `.service` suffixes, and whose description joins the remaining words with
/// single spaces; a line with fewer words gives none.
pub proof fn lemma_service_line_columns(line: Seq<char>)
    ensures
        words(line).len() >= 4 ==> (service_line(line) matches Some(v) && v.load_state == words(
            line,
        )[1] && v.active_state == words(line)[2] && v.sub_state == words(line)[3] && v.name
            == strip_suffixes(words(line)[0], ".service"@) && v.description == join(
            words(line).subrange(4, words(line).len() as int),
            " "@,
        ) && v.unit_file_state.len() == 0),
        words(line).len() < 4 ==> service_line(line) is None,
{
}

/// Parse a single line from systemctl list-units output.
pub fn parse_service_line(line: &str) -> (r: Option<ServiceInfo>)
    ensures
        match r {
            Some(info) => service_line(line@) == Some(info@),
            None => service_line(line@) is None,
        },
{
    let parts = str_words(line);
    if parts.len() < 4 {
        return None;
    }
    let first = chars_of(parts[0].as_str());
    let suffix = chars_of(".service");
    proof {
        reveal_strlit(".service");
    }
    let end = strip_suffixes_len(&first, first.len(), &suffix);
    assert(first@.subrange(0, first@.len() as int) =~= first@);
    let name = string_of_range(&first, 0, end);
    let description = join_from(&parts, 4, " ");
    let info = ServiceInfo {
        name,
        description,
        load_state: parts[1].clone(),
        active_state: parts[2].clone(),
        sub_state: parts[3].clone(),
        unit_file_state: String::new(),
    };
    proof {
        assert(views(parts@)[1] == parts@[1]@);
        assert(views(parts@)[2] == parts@[2]@);
        assert(views(parts@)[3] == parts@[3]@);
        assert(views(parts@)[0] == parts@[0]@);
        assert(info@.unit_file_state =~= Seq::<char>::empty());
    }
    Some(info)
}

/// The services of a listing, one per line that parses, in order.
pub open spec fn service_listing(ls: Seq<Seq<char>>) -> Seq<ServiceInfoView>
    decreases ls.len(),
{
    if ls.len() == 0 {
        Seq::empty()
    } else {
        let prev = service_listing(ls.drop_last());
        match service_line(ls.last()) {
            Some(info) => prev.push(info),
            None => prev,
        }
    }
}

pub open spec fn info_views(v: Seq<ServiceInfo>) -> Seq<ServiceInfoView> {
    v.map_values(|i: ServiceInfo| i@)
}

/// The services listed in the output of `systemctl list-units`.
pub fn services_from_listing(stdout: &str) -> (r: Vec<ServiceInfo>)
    ensures
        info_views(r@) == service_listing(lines(stdout@)),
{
    let ls = str_lines(stdout);
    let mut out: Vec<ServiceInfo> = Vec::new();
    let mut i: usize = 0;
    while i < ls.len()
        invariant
            i <= ls@.len(),
            info_views(out@) == service_listing(views(ls@).take(i as int)),
        decreases ls@.len() - i,
    {
        let ghost before = out@;
        assert(views(ls@).take(i + 1).drop_last() =~= views(ls@).take(i as int));
        assert(views(ls@).take(i + 1).last() == ls@[i as int]@);
        match parse_service_line(ls[i].as_str()) {
            Some(info) => {
                out.push(info);
                assert(info_views(out@) =~= info_views(before).push(info@));
            },
            None => {},
        }
        i = i + 1;
    }
    assert(views(ls@).take(ls@.len() as int) =~= views(ls@));
    out
}

/// The status after reading the lines of `systemctl show`: each `Key=Value` line with
/// a known key sets that field, later lines overriding earlier ones.
pub open spec fn show_status(name: Seq<char>, ls: Seq<Seq<char>>) -> ServiceInfoView
    decreases ls.len(),
{
    if ls.len() == 0 {
        ServiceInfoView {
            name,
            description: Seq::empty(),
            load_state: Seq::empty(),
            active_state: Seq::empty(),
            sub_state: Seq::empty(),
            unit_file_state: Seq::empty(),
        }
    } else {
        let s = show_status(name, ls.drop_last());
        match split_once(ls.last(), '=') {
            Some((k, v)) => if k == "Description"@ {
                ServiceInfoView { description: v, ..s }
            } else if k == "LoadState"@ {
                ServiceInfoView { load_state: v, ..s }
            } else if k == "ActiveState"@ {
                ServiceInfoView { active_state: v, ..s }
            } else if k == "SubState"@ {
                ServiceInfoView { sub_state: v, ..s }
            } else if k == "UnitFileState"@ {
                ServiceInfoView { unit_file_state: v, ..s }
            } else {
                s
            },
            None => s,
        }
    }
}

/// The status of the unit `name` read from the output of `systemctl show`.
pub fn service_status_from_show(name: &str, stdout: &str) -> (r: ServiceInfo)
    ensures
        r@ == show_status(name@, lines(stdout@)),
{
    let ls = str_lines(stdout);
    let mut info = ServiceInfo {
        name: owned(name),
        description: String::new(),
        load_state: String::new(),
        active_state: String::new(),
        sub_state: String::new(),
        unit_file_state: String::new(),
    };
    assert(info@ == show_status(name@, views(ls@).take(0)));
    let mut i: usize = 0;
    while i < ls.len()
        invariant
            i <= ls@.len(),
            info@ == show_status(name@, views(ls@).take(i as int)),
        decreases ls@.len() - i,
    {
        assert(views(ls@).take(i + 1).drop_last() =~= views(ls@).take(i as int));
        assert(views(ls@).take(i + 1).last() == ls@[i as int]@);
        match str_split_once(ls[i].as_str(), '=') {
            Some((key, value)) => {
                let k = key.as_str();
                if str_eq(k, "Description") {
                    info.description = value;
                } else if str_eq(k, "LoadState") {
                    info.load_state = value;
                } else if str_eq(k, "ActiveState") {
                    info.active_state = value;
                } else if str_eq(k, "SubState") {
                    info.sub_state = value;
                } else if str_eq(k, "UnitFileState") {
                    info.unit_file_state = value;
                }
            },
            None => {},
        }
        i = i + 1;
    }
    assert(views(ls@).take(ls@.len() as int) =~= views(ls@));
    info
}

/// The answer to a service action once `systemctl` has run: on success the message
/// `Service '<name>' <done> successfully`; on failure the error
/// `Failed to <verb> service '<name>': <stderr trimmed>`.
pub fn service_action_outcome(name: &str, action: &ServiceAction, success: bool, stderr: &str) -> (r:
    Result<String, String>)
    ensures
        success ==> (r matches Ok(m) && m@ == "Service '"@ + name@ + "' "@ + action.done()
            + " successfully"@),
        !success ==> (r matches Err(m) && m@ == "Failed to "@ + action.verb() + " service '"@
            + name@ + "': "@ + trim(stderr@)),
{
    if success {
        let parts = vec![
            owned("Service '"),
            owned(name),
            owned("' "),
            owned(past_tense(action)),
            owned(" successfully"),
        ];
        let m = concat_all(&parts);
        proof {
            reveal_with_fuel(concat_views, 6);
            assert(parts@.take(0) =~= Seq::<String>::empty());
        }
        Ok(m)
    } else {
        let parts = vec![
            owned("Failed to "),
            owned(action.as_str()),
            owned(" service '"),
            owned(name),
            owned("': "),
            trimmed(stderr),
        ];
        let m = concat_all(&parts);
        proof {
            reveal_with_fuel(concat_views, 7);
        }
        Err(m)
    }
}


/// Managing services is for operators and admins (`403` for any other role).
pub fn check_service_action(user: &AuthenticatedUser) -> (r: Result<(), ApiError>)
    ensures
        r is Ok <==> is_operator_or_admin(user.role@),
        r matches Err(e) ==> e.is(FORBIDDEN, "Operator or admin access required to manage services"@),
{
    require_operator(user, "Operator or admin access required to manage services")
}

} // verus!
