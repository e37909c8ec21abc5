//! Backups: the checks on a backup request, the archive path and the `tar` command.
use vstd::prelude::*;

use crate::access::{is_operator_or_admin, require_admin, require_operator, ApiError, AuthenticatedUser, BAD_REQUEST};
use crate::clock::{compact_stamp, compact_stamp_of, UtcInstant};
use crate::text::{
    chars_of, concat, contains, is_alphanumeric, owned, str_contains, string_of,
    unicode_alphanumeric, views,
};

verus! {

pub struct Backup {
    pub id: String,
    pub name: String,
    pub file_path: String,
    pub size_bytes: i64,
    pub backup_type: String,
    pub status: String,
    pub created_by: Option<String>,
    pub created_at: String,
}

pub struct CreateBackupRequest {
    pub name: String,
    pub include_paths: Vec<String>,
}

#[derive(PartialEq, Eq, Structural, Clone, Copy, Debug)]
pub enum BackupStatus {
    Pending,
    InProgress,
    Completed,
    Failed,
}

impl BackupStatus {
    pub open spec fn name(self) -> Seq<char> {
        match self {
            BackupStatus::Pending => "pending"@,
            BackupStatus::InProgress => "in_progress"@,
            BackupStatus::Completed => "completed"@,
            BackupStatus::Failed => "failed"@,
        }
    }

    pub fn as_str(&self) -> (s: &str)
        ensures
            s@ == self.name(),
    {
        match self {
            BackupStatus::Pending => "pending",
            BackupStatus::InProgress => "in_progress",
            BackupStatus::Completed => "completed",
            BackupStatus::Failed => "failed",
        }
    }
}

/// Distinct statuses are stored under distinct names.
pub proof fn lemma_status_names_distinct(a: BackupStatus, b: BackupStatus)
    ensures
        a.name() == b.name() ==> a == b,
{
    reveal_strlit("pending");
    reveal_strlit("in_progress");
    reveal_strlit("completed");
    reveal_strlit("failed");
    if a != b {
        assert(a.name()[0] != b.name()[0]);
    }
}

/// The checks of the backup route, before any work: backups are created by
/// operators and admins (`403` for any other role); the name and the list of paths
/// must not be empty (`400`).
pub fn check_create_request(user: &AuthenticatedUser, req: &CreateBackupRequest) -> (r: Result<
    (),
    ApiError,
>)
    ensures
        !is_operator_or_admin(user.role@) ==> (r matches Err(e) && e.is(
            crate::access::FORBIDDEN,
            "Operator access required to create backups"@,
        )),
        is_operator_or_admin(user.role@) && req.name@.len() == 0 ==> (r matches Err(e) && e.is(
            BAD_REQUEST,
            "Backup name is required"@,
        )),
        is_operator_or_admin(user.role@) && req.name@.len() > 0 && req.include_paths@.len() == 0
            ==> (r matches Err(e) && e.is(BAD_REQUEST, "At least one path to backup is required"@)),
        r is Ok <==> is_operator_or_admin(user.role@) && req.name@.len() > 0
            && req.include_paths@.len() > 0,
{
    require_operator(user, "Operator access required to create backups")?;
    if chars_of(req.name.as_str()).len() == 0 {
        return Err(ApiError::new(BAD_REQUEST, "Backup name is required"));
    }
    if req.include_paths.len() == 0 {
        return Err(ApiError::new(BAD_REQUEST, "At least one path to backup is required"));
    }
    Ok(())
}

/// The check of the backup deletion route: admins only (`403`).
pub fn check_delete_request(user: &AuthenticatedUser) -> (r: Result<(), ApiError>)
    ensures
        if crate::access::is_admin(user.role@) {
            r is Ok
        } else {
            r matches Err(e) && e.is(crate::access::FORBIDDEN, "Admin access required to delete backups"@)
        },
{
    require_admin(user, "Admin access required to delete backups")
}

/// Why a backup is refused.
pub enum BackupError {
    /// The name is empty or longer than 128 bytes.
    NameLength,
    /// An included path does not exist.
    PathMissing(String),
    /// An included path holds `..`.
    PathTraversal(String),
    /// The instant of the backup is not a date.
    TimeOutOfRange,
}

impl BackupError {
    /// The text of the error.
    pub fn message(&self) -> (m: String)
        ensures
            m@ == (match self {
                BackupError::NameLength => "Backup name must be 1-128 characters"@,
                BackupError::PathMissing(p) => "Path does not exist: "@ + p@,
                BackupError::PathTraversal(p) => "Path traversal not allowed: "@ + p@,
                BackupError::TimeOutOfRange => "Backup time is out of range"@,
            }),
    {
        match self {
            BackupError::NameLength => owned("Backup name must be 1-128 characters"),
            BackupError::PathMissing(p) => concat("Path does not exist: ", p.as_str()),
            BackupError::PathTraversal(p) => concat("Path traversal not allowed: ", p.as_str()),
            BackupError::TimeOutOfRange => owned("Backup time is out of range"),
        }
    }
}

/// A backup name must be 1 to 128 bytes long.
pub fn check_backup_name(name: &str) -> (r: Result<(), BackupError>)
    ensures
        r is Ok <==> name@.len() > 0 && crate::text::byte_len(name@) <= 128,
        r matches Err(e) ==> e is NameLength,
{
    if chars_of(name).len() == 0 || name.as_bytes().len() > 128 {
        Err(BackupError::NameLength)
    } else {
        Ok(())
    }
}

/// A character kept in the file name of a backup.
pub open spec fn safe_char(c: char) -> bool {
    unicode_alphanumeric(c) || c == '-' || c == '_'
}

/// The characters of `s` kept in a file name, in order.
pub open spec fn safe_name(s: Seq<char>) -> Seq<char>
    decreases s.len(),
{
    if s.len() == 0 {
        Seq::empty()
    } else if safe_char(s.last()) {
        safe_name(s.drop_last()).push(s.last())
    } else {
        safe_name(s.drop_last())
    }
}

/// The name of a backup with every character but letters, digits, `-` and `_`
/// dropped. The result holds no `/`, no `.` and no white space, so it cannot leave
/// the backup directory.
pub fn safe_backup_name(name: &str) -> (r: String)
    ensures
        r@ == safe_name(name@),
        forall|i: int| 0 <= i < r@.len() ==> safe_char(#[trigger] r@[i]),
{
    let v = chars_of(name);
    let mut out: Vec<char> = Vec::new();
    let mut i: usize = 0;
    while i < v.len()
        invariant
            i <= v@.len(),
            v@ == name@,
            out@ == safe_name(v@.take(i as int)),
            forall|k: int| 0 <= k < out@.len() ==> safe_char(#[trigger] out@[k]),
        decreases v@.len() - i,
    {
        let c = v[i];
        assert(v@.take(i + 1).drop_last() =~= v@.take(i as int));
        if is_alphanumeric(c) || c == '-' || c == '_' {
            out.push(c);
        }
        i = i + 1;
    }
    assert(v@.take(v@.len() as int) =~= v@);
    string_of(out.as_slice())
}

/// The archive of a backup: `<dir>/<safe name>_<YYYYmmdd_HHMMSS>.tar.gz`.
pub open spec fn archive_path(dir: Seq<char>, name: Seq<char>, stamp: Seq<char>) -> Seq<char> {
    dir + "/"@ + safe_name(name) + "_"@ + stamp + ".tar.gz"@
}

/// The path of the archive of a backup named `name` taken at `now` in `backup_dir`.
pub fn backup_file_path(backup_dir: &str, name: &str, now: UtcInstant) -> (r: Result<
    String,
    BackupError,
>)
    ensures
        match compact_stamp_of(now.secs, now.nanos) {
            Some(stamp) => r matches Ok(p) && p@ == archive_path(backup_dir@, name@, stamp),
            None => r matches Err(e) && e is TimeOutOfRange,
        },
{
    let stamp = match compact_stamp(now) {
        Some(s) => s,
        None => return Err(BackupError::TimeOutOfRange),
    };
    let safe = safe_backup_name(name);
    let mut p = owned(backup_dir);
    p.append("/");
    p.append(safe.as_str());
    p.append("_");
    p.append(stamp.as_str());
    p.append(".tar.gz");
    Ok(p)
}

/// The verdict on the included paths, given which of them exist: the first path
/// that is missing or holds `..` is refused, missing checked before `..`.
pub open spec fn include_verdict(paths: Seq<Seq<char>>, present: Seq<bool>) -> Result<(), (bool, Seq<char>)>
    decreases paths.len(),
{
    if paths.len() == 0 {
        Ok(())
    } else if !present[0] {
        Err((true, paths[0]))
    } else if contains(paths[0], ".."@) {
        Err((false, paths[0]))
    } else {
        include_verdict(paths.drop_first(), present.drop_first())
    }
}

pub open spec fn backup_error_view(e: BackupError) -> Result<(), (bool, Seq<char>)> {
    match e {
        BackupError::PathMissing(p) => Err((true, p@)),
        BackupError::PathTraversal(p) => Err((false, p@)),
        _ => Ok(()),
    }
}

/// An included path that exists and holds no `..`.
pub open spec fn include_ok(path: Seq<char>, present: bool) -> bool {
    present && !contains(path, ".."@)
}

proof fn lemma_include_verdict_ok(paths: Seq<Seq<char>>, present: Seq<bool>)
    requires
        paths.len() == present.len(),
        include_verdict(paths, present) is Ok,
    ensures
        forall|i: int| 0 <= i < paths.len() ==> include_ok(#[trigger] paths[i], present[i]),
    decreases paths.len(),
{
    if paths.len() > 0 {
        assert(present[0]);
        assert(!contains(paths[0], ".."@));
        lemma_include_verdict_ok(paths.drop_first(), present.drop_first());
        assert forall|i: int| 0 <= i < paths.len() implies include_ok(#[trigger] paths[i], present[i]) by {
            if i > 0 {
                let k = i - 1;
                assert(paths.drop_first()[k] == paths[i]);
                assert(present.drop_first()[k] == present[i]);
                assert(include_ok(paths.drop_first()[k], present.drop_first()[k]));
            }
        }
    }
}

/// Checks the paths to include, given which of them exist. Every path of an accepted
/// list present and holds no `..`.
pub fn check_include_paths(paths: &Vec<String>, present: &Vec<bool>) -> (r: Result<(), BackupError>)
    requires
        paths@.len() == present@.len(),
    ensures
        match r {
            Ok(()) => include_verdict(views(paths@), present@) is Ok,
            Err(e) => include_verdict(views(paths@), present@) == backup_error_view(e)
                && backup_error_view(e) is Err,
        },
        r is Ok ==> forall|i: int|
            0 <= i < paths@.len() ==> include_ok(#[trigger] paths@[i]@, present@[i]),
{
    let mut i: usize = 0;
    assert(views(paths@).subrange(0, paths@.len() as int) =~= views(paths@));
    assert(present@.subrange(0, present@.len() as int) =~= present@);
    while i < paths.len()
        invariant
            i <= paths@.len() == present@.len(),
            include_verdict(views(paths@), present@) == include_verdict(
                views(paths@).subrange(i as int, paths@.len() as int),
                present@.subrange(i as int, present@.len() as int),
            ),
        decreases paths@.len() - i,
    {
        let ghost ps = views(paths@).subrange(i as int, paths@.len() as int);
        let ghost es = present@.subrange(i as int, present@.len() as int);
        assert(ps[0] == paths@[i as int]@);
        assert(es[0] == present@[i as int]);
        if !present[i] {
            return Err(BackupError::PathMissing(paths[i].clone()));
        }
        if str_contains(paths[i].as_str(), "..") {
            return Err(BackupError::PathTraversal(paths[i].clone()));
        }
        assert(ps.drop_first() =~= views(paths@).subrange(i + 1, paths@.len() as int));
        assert(es.drop_first() =~= present@.subrange(i + 1, present@.len() as int));
        i = i + 1;
    }
    proof {
        lemma_include_verdict_ok(views(paths@), present@);
        assert forall|i: int| 0 <= i < paths@.len() implies include_ok(#[trigger] paths@[i]@, present@[i]) by {
            assert(views(paths@)[i] == paths@[i]@);
        }
    }
    Ok(())
}

/// The arguments of `tar` that write the archive: `-czf <archive> <paths...>`.
pub fn tar_args(file_path: &str, paths: &Vec<String>) -> (r: Vec<String>)
    ensures
        views(r@) == seq!["-czf"@, file_path@] + views(paths@),
{
    let mut args: Vec<String> = vec![owned("-czf"), owned(file_path)];
    let ghost head = views(args@);
    let mut i: usize = 0;
    while i < paths.len()
        invariant
            i <= paths@.len(),
            views(args@) == head + views(paths@).take(i as int),
        decreases paths@.len() - i,
    {
        let ghost before = args@;
        args.push(paths[i].clone());
        assert(views(args@) =~= views(before).push(paths@[i as int]@));
        assert(views(paths@).take(i + 1) =~= views(paths@).take(i as int).push(paths@[i as int]@));
        i = i + 1;
    }
    assert(views(paths@).take(paths@.len() as int) =~= views(paths@));
    assert(head =~= seq!["-czf"@, file_path@]);
    args
}

/// The error of a `tar` run that failed: `Backup creation failed: <stderr>`.
pub fn tar_failure(stderr: &str) -> (m: String)
    ensures
        m@ == "Backup creation failed: "@ + stderr@,
{
    concat("Backup creation failed: ", stderr)
}

/// The record of a completed manual backup.
pub fn completed_backup(
    id: String,
    name: &str,
    file_path: String,
    size_bytes: i64,
    user_id: &str,
    created_at: String,
) -> (b: Backup)
    ensures
        b.id == id && b.name@ == name@ && b.file_path == file_path && b.size_bytes == size_bytes,
        b.backup_type@ == "manual"@ && b.status@ == "completed"@,
        b.created_by matches Some(u) && u@ == user_id@,
        b.created_at == created_at,
{
    Backup {
        id,
        name: owned(name),
        file_path,
        size_bytes,
        backup_type: owned("manual"),
        status: owned("completed"),
        created_by: Some(owned(user_id)),
        created_at,
    }
}

} // verus!
