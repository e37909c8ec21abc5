//! Package updates: the parsing of `apt list --upgradable` and the answers of the
//! update commands.
use vstd::prelude::*;

use crate::access::{is_admin, require_admin, ApiError, AuthenticatedUser, FORBIDDEN};

use crate::text::{
    chars_of, concat, find, find_char_from, find_exec, first_index_of, lemma_first_index_of, lemma_first_index_of_none,
    lines, owned, split_words, str_lines, string_of_range, trim, trimmed, views, words,
};

verus! {

/// System update information.
pub struct UpdateInfo {
    pub package: String,
    pub current_version: String,
    pub new_version: String,
    pub repository: String,
}

pub struct UpdateInfoView {
    pub package: Seq<char>,
    pub current_version: Seq<char>,
    pub new_version: Seq<char>,
    pub repository: Seq<char>,
}

impl View for UpdateInfo {
    type V = UpdateInfoView;

    open spec fn view(&self) -> UpdateInfoView {
        UpdateInfoView {
            package: self.package@,
            current_version: self.current_version@,
            new_version: self.new_version@,
            repository: self.repository@,
        }
    }
}

/// The installed version named in `rest` after `from: `, up to the next `]` or the
/// end; `unknown` when `rest` holds no `from: `.
pub open spec fn current_version_in(rest: Seq<char>) -> Seq<char> {
    match find(rest, "from: "@) {
        Some(i) => {
            let start = i + 6;
            let tail = rest.subrange(start, rest.len() as int);
            match first_index_of(tail, ']') {
                Some(j) => rest.subrange(start, start + j),
                None => tail,
            }
        },
        None => "unknown"@,
    }
}

/// The update described by a line of `apt list --upgradable`, such as
/// `pkg/stable 2.0 amd64 [upgradable from: 1.0]`: the package before the first `/`,
/// then the repository and the new version as the first two words after it.
pub open spec fn update_line(line: Seq<char>) -> Option<UpdateInfoView> {
    match first_index_of(line, '/') {
        Some(k) => {
            let rest = line.subrange(k + 1, line.len() as int);
            let w = words(rest);
            if w.len() < 2 {
                None
            } else {
                Some(
                    UpdateInfoView {
                        package: line.subrange(0, k),
                        current_version: current_version_in(rest),
                        new_version: w[1],
                        repository: w[0],
                    },
                )
            }
        },
        None => None,
    }
}

/// A line `<package>/<rest>` whose package holds no `/` and whose rest has at least
/// two words gives an update of that package from the repository named by the first
/// word of the rest to the version named by its second word; a line without `/` gives
/// none.
pub proof fn lemma_update_line_columns(package: Seq<char>, rest: Seq<char>)
    requires
        forall|i: int| 0 <= i < package.len() ==> #[trigger] package[i] != '/',
    ensures
        words(rest).len() >= 2 ==> (update_line(package + seq!['/'] + rest) matches Some(u)
            && u.package == package && u.repository == words(rest)[0] && u.new_version == words(
            rest,
        )[1]),
        words(rest).len() < 2 ==> update_line(package + seq!['/'] + rest) is None,
        update_line(package) is None,
{
    let line = package + seq!['/'] + rest;
    let k = package.len() as int;
    assert forall|j: int| 0 <= j < k implies line[j] != '/' by {
        assert(line[j] == package[j]);
    }
    lemma_first_index_of(line, '/', k);
    assert(line.subrange(0, k) =~= package);
    assert(line.subrange(k + 1, line.len() as int) =~= rest);
    lemma_first_index_of_none(package, '/');
}

fn current_version(rest: &Vec<char>) -> (r: String)
    ensures
        r@ == current_version_in(rest@),
{
    let pat = chars_of("from: ");
    proof {
        lemma_from_marker_len();
    }
    let found = find_exec(rest, &pat);
    match found {
        Some(i) => {
            assert(find(rest@, "from: "@) == Some(i as int));
            let n = rest.len();
            assert(i + 6 <= n);
            let start = i + 6;
            let end = version_end(rest, start);
            string_of_range(rest, start, end)
        },
        None => {
            assert(find(rest@, "from: "@) is None);
            owned("unknown")
        },
    }
}

proof fn lemma_from_marker_len()
    ensures
        "from: "@.len() == 6,
{
    reveal_strlit("from: ");
}

/// The index of the first `]` at or after `start`, else the end of `rest`.
fn version_end(rest: &Vec<char>, start: usize) -> (end: usize)
    requires
        start <= rest@.len(),
    ensures
        start <= end <= rest@.len(),
        rest@.subrange(start as int, end as int) == (match first_index_of(
            rest@.subrange(start as int, rest@.len() as int),
            ']',
        ) {
            Some(j) => rest@.subrange(start as int, start + j),
            None => rest@.subrange(start as int, rest@.len() as int),
        }),
{
    let ghost tail = rest@.subrange(start as int, rest@.len() as int);
    match find_char_from(rest, start, ']') {
        Some(end) => {
            proof {
                assert(tail[end - start] == ']');
                assert forall|k: int| 0 <= k < end - start implies tail[k] != ']' by {
                    assert(tail[k] == rest@[start + k]);
                }
                lemma_first_index_of(tail, ']', end - start);
            }
            end
        },
        None => {
            proof {
                assert forall|k: int| 0 <= k < tail.len() implies tail[k] != ']' by {
                    assert(tail[k] == rest@[start + k]);
                }
                lemma_first_index_of_none(tail, ']');
                assert(tail =~= rest@.subrange(start as int, rest@.len() as int));
            }
            rest.len()
        },
    }
}

/// Parse a line of `apt list --upgradable`.
pub fn parse_update_line(line: &str) -> (r: Option<UpdateInfo>)
    ensures
        match r {
            Some(u) => update_line(line@) == Some(u@),
            None => update_line(line@) is None,
        },
{
    let v = chars_of(line);
    let k = match find_char_from(&v, 0, '/') {
        Some(k) => k,
        None => {
            proof {
                lemma_first_index_of_none(v@, '/');
            }
            return None;
        },
    };
    proof {
        lemma_first_index_of(v@, '/', k as int);
    }
    let n = v.len();
    let package = string_of_range(&v, 0, k);
    let mut rest: Vec<char> = Vec::new();
    let mut i = k + 1;
    while i < n
        invariant
            k < n == v@.len(),
            k + 1 <= i <= n,
            rest@ == v@.subrange(k + 1, i as int),
        decreases n - i,
    {
        rest.push(v[i]);
        i = i + 1;
    }
    let segments = split_words(&rest);
    if segments.len() < 2 {
        return None;
    }
    let repository = segments[0].clone();
    let new_version = segments[1].clone();
    let current_version = current_version(&rest);
    proof {
        assert(views(segments@)[0] == segments@[0]@);
        assert(views(segments@)[1] == segments@[1]@);
    }
    Some(UpdateInfo { package, current_version, new_version, repository })
}

/// The lines after the first one.
pub open spec fn after_header(ls: Seq<Seq<char>>) -> Seq<Seq<char>> {
    if ls.len() > 0 {
        ls.drop_first()
    } else {
        ls
    }
}

/// The updates of a listing, one per line that parses, in order.
pub open spec fn update_listing(ls: Seq<Seq<char>>) -> Seq<UpdateInfoView>
    decreases ls.len(),
{
    if ls.len() == 0 {
        Seq::empty()
    } else {
        let prev = update_listing(ls.drop_last());
        match update_line(ls.last()) {
            Some(u) => prev.push(u),
            None => prev,
        }
    }
}

pub open spec fn update_views(v: Seq<UpdateInfo>) -> Seq<UpdateInfoView> {
    v.map_values(|u: UpdateInfo| u@)
}

/// The updates in the output of `apt list --upgradable`, whose first line is a header.
pub fn updates_from_listing(stdout: &str) -> (r: Vec<UpdateInfo>)
    ensures
        update_views(r@) == update_listing(after_header(lines(stdout@))),
{
    let ls = str_lines(stdout);
    let mut out: Vec<UpdateInfo> = Vec::new();
    if ls.len() == 0 {
        return out;
    }
    let ghost body = views(ls@).drop_first();
    let mut i: usize = 1;
    while i < ls.len()
        invariant
            1 <= i <= ls@.len(),
            body == views(ls@).drop_first(),
            update_views(out@) == update_listing(body.take(i - 1)),
        decreases ls@.len() - i,
    {
        let ghost before = out@;
        assert(body.take(i as int).drop_last() =~= body.take(i - 1));
        assert(body.take(i as int).last() == ls@[i as int]@);
        match parse_update_line(ls[i].as_str()) {
            Some(u) => {
                out.push(u);
                assert(update_views(out@) =~= update_views(before).push(u@));
            },
            None => {},
        }
        i = i + 1;
    }
    assert(body.take(ls@.len() - 1) =~= body);
    out
}

/// The error of a failed `apt-get update`: `apt-get update failed: <stderr trimmed>`.
pub fn refresh_failure(stderr: &str) -> (m: String)
    ensures
        m@ == "apt-get update failed: "@ + trim(stderr@),
{
    let t = trimmed(stderr);
    concat("apt-get update failed: ", t.as_str())
}

/// The answer of `apt-get upgrade`: its output on success, else
/// `apt-get upgrade failed: <stderr trimmed>`.
pub fn upgrade_outcome(success: bool, stdout: &str, stderr: &str) -> (r: Result<String, String>)
    ensures
        success ==> (r matches Ok(m) && m@ == stdout@),
        !success ==> (r matches Err(m) && m@ == "apt-get upgrade failed: "@ + trim(stderr@)),
{
    if success {
        Ok(owned(stdout))
    } else {
        let t = trimmed(stderr);
        Err(concat("apt-get upgrade failed: ", t.as_str()))
    }
}


/// Applying updates is for admins (`403`).
pub fn check_apply_updates(user: &AuthenticatedUser) -> (r: Result<(), ApiError>)
    ensures
        r is Ok <==> is_admin(user.role@),
        r matches Err(e) ==> e.is(FORBIDDEN, "Admin access required to apply updates"@),
{
    require_admin(user, "Admin access required to apply updates")
}

} // verus!
