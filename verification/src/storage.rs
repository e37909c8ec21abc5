//! Storage management: the FTP server's configuration and users, RAID arrays,
//! block devices and mounts.
use vstd::prelude::*;

use crate::access::{is_admin, require_admin, ApiError, AuthenticatedUser, BAD_REQUEST, FORBIDDEN};
use crate::text::{
    chars_of, concat, contains, contains_exec, decimal, decimal_string, find_char_from,
    first_index_of, is_ascii_digit, is_ws, lemma_decimal_digits, lemma_first_index_of,
    lemma_first_index_of_none, lines, lines_acc, occurs_at, owned, split_once, split_words,
    starts_with, str_contains, str_lines, str_split_once, str_starts_with, str_words,
    string_of_range, strip_cr, trim, trim_end, trim_start, trimmed, views, words,
};

verus! {

pub struct FtpStatus {
    pub installed: bool,
    pub running: bool,
    pub config: Vec<FtpConfigEntry>,
    pub users: Vec<String>,
}

pub struct FtpConfigEntry {
    pub key: String,
    pub value: String,
}

pub struct FtpConfigUpdate {
    pub anonymous_enable: bool,
    pub local_enable: bool,
    pub write_enable: bool,
    pub chroot_local_user: bool,
    pub listen_port: u16,
    pub pasv_min_port: u16,
    pub pasv_max_port: u16,
    pub max_clients: u16,
}

pub struct FtpUserRequest {
    pub username: String,
    pub password: String,
    pub directory: Option<String>,
}

pub struct RaidArray {
    pub name: String,
    pub level: String,
    pub state: String,
    pub size: String,
    pub devices: Vec<String>,
    pub active_devices: String,
}

pub struct RaidCreateRequest {
    pub name: String,
    pub level: String,
    pub devices: Vec<String>,
}

pub struct MountPoint {
    pub device: String,
    pub mount_point: String,
    pub filesystem: String,
    pub options: String,
    pub size: String,
    pub used: String,
    pub available: String,
    pub use_percent: String,
}

pub struct BlockDevice {
    pub name: String,
    pub size: String,
    pub device_type: String,
    pub mountpoint: String,
    pub filesystem: String,
}

pub struct MountRequest {
    pub device: String,
    pub mount_point: String,
    pub filesystem: String,
    pub options: Option<String>,
    pub persistent: bool,
}

pub struct UnmountRequest {
    pub mount_point: String,
}

// ---------------------------------------------------------------------------
// FTP server configuration
// ---------------------------------------------------------------------------

pub open spec fn yes_no(b: bool) -> Seq<char> {
    if b {
        "YES"@
    } else {
        "NO"@
    }
}

pub fn bool_to_yn(b: bool) -> (s: &'static str)
    ensures
        s@ == yes_no(b),
{
    if b {
        "YES"
    } else {
        "NO"
    }
}

/// A setting of `vsftpd.conf` written as a line: `key=value`.
pub open spec fn setting_line(p: (Seq<char>, Seq<char>)) -> Seq<char> {
    p.0 + "="@ + p.1
}

/// Settings written one per line, each line ended by `\n`.
pub open spec fn settings_text(ps: Seq<(Seq<char>, Seq<char>)>) -> Seq<char>
    decreases ps.len(),
{
    if ps.len() == 0 {
        Seq::empty()
    } else {
        settings_text(ps.drop_last()) + setting_line(ps.last()) + "\n"@
    }
}

/// The settings written for a configuration update, in order.
pub open spec fn vsftpd_settings(u: FtpConfigUpdate) -> Seq<(Seq<char>, Seq<char>)> {
    seq![
        ("listen"@, "YES"@),
        ("listen_ipv6"@, "NO"@),
        ("anonymous_enable"@, yes_no(u.anonymous_enable)),
        ("local_enable"@, yes_no(u.local_enable)),
        ("write_enable"@, yes_no(u.write_enable)),
        ("chroot_local_user"@, yes_no(u.chroot_local_user)),
        ("listen_port"@, decimal(u.listen_port as nat)),
        ("pasv_min_port"@, decimal(u.pasv_min_port as nat)),
        ("pasv_max_port"@, decimal(u.pasv_max_port as nat)),
        ("max_clients"@, decimal(u.max_clients as nat)),
        ("pam_service_name"@, "vsftpd"@),
        ("ssl_enable"@, "NO"@),
    ]
}

/// The `vsftpd.conf` written for a configuration update.
pub open spec fn vsftpd_config(u: FtpConfigUpdate) -> Seq<char> {
    settings_text(vsftpd_settings(u))
}

pub open spec fn pair_views(v: Seq<(String, String)>) -> Seq<(Seq<char>, Seq<char>)> {
    v.map_values(|p: (String, String)| (p.0@, p.1@))
}

/// The text of `/etc/vsftpd.conf` for a configuration update.
pub fn vsftpd_config_text(u: &FtpConfigUpdate) -> (s: String)
    ensures
        s@ == vsftpd_config(*u),
{
    let settings: Vec<(String, String)> = vec![
        (owned("listen"), owned("YES")),
        (owned("listen_ipv6"), owned("NO")),
        (owned("anonymous_enable"), owned(bool_to_yn(u.anonymous_enable))),
        (owned("local_enable"), owned(bool_to_yn(u.local_enable))),
        (owned("write_enable"), owned(bool_to_yn(u.write_enable))),
        (owned("chroot_local_user"), owned(bool_to_yn(u.chroot_local_user))),
        (owned("listen_port"), decimal_string(u.listen_port as u64)),
        (owned("pasv_min_port"), decimal_string(u.pasv_min_port as u64)),
        (owned("pasv_max_port"), decimal_string(u.pasv_max_port as u64)),
        (owned("max_clients"), decimal_string(u.max_clients as u64)),
        (owned("pam_service_name"), owned("vsftpd")),
        (owned("ssl_enable"), owned("NO")),
    ];
    assert(pair_views(settings@) =~= vsftpd_settings(*u));
    let mut s = String::new();
    let mut i: usize = 0;
    while i < settings.len()
        invariant
            i <= settings@.len(),
            s@ == settings_text(pair_views(settings@).take(i as int)),
        decreases settings@.len() - i,
    {
        let ghost before = s@;
        s.append(settings[i].0.as_str());
        s.append("=");
        s.append(settings[i].1.as_str());
        s.append("\n");
        let ghost t = pair_views(settings@).take(i + 1);
        assert(t.drop_last() =~= pair_views(settings@).take(i as int));
        assert(s@ =~= before + setting_line(t.last()) + "\n"@);
        i = i + 1;
    }
    assert(pair_views(settings@).take(settings@.len() as int) =~= pair_views(settings@));
    s
}

pub struct FtpConfigEntryView {
    pub key: Seq<char>,
    pub value: Seq<char>,
}

impl View for FtpConfigEntry {
    type V = FtpConfigEntryView;

    open spec fn view(&self) -> FtpConfigEntryView {
        FtpConfigEntryView { key: self.key@, value: self.value@ }
    }
}

/// The entry a line of `vsftpd.conf` holds: none for a comment or a line without
/// `=`; else the trimmed text before the first `=` and the trimmed text after it.
pub open spec fn vsftpd_entry(line: Seq<char>) -> Option<FtpConfigEntryView> {
    if starts_with(line, "#"@) || !contains(line, "="@) {
        None
    } else {
        match split_once(line, '=') {
            Some((k, v)) => Some(FtpConfigEntryView { key: trim(k), value: trim(v) }),
            None => None,
        }
    }
}

/// The entries of the lines, in order.
pub open spec fn vsftpd_entries(ls: Seq<Seq<char>>) -> Seq<FtpConfigEntryView>
    decreases ls.len(),
{
    if ls.len() == 0 {
        Seq::empty()
    } else {
        let prev = vsftpd_entries(ls.drop_last());
        match vsftpd_entry(ls.last()) {
            Some(e) => prev.push(e),
            None => prev,
        }
    }
}

pub open spec fn entry_views(v: Seq<FtpConfigEntry>) -> Seq<FtpConfigEntryView> {
    v.map_values(|e: FtpConfigEntry| e@)
}

fn vsftpd_line_entry(line: &str) -> (r: Option<FtpConfigEntry>)
    ensures
        match r {
            Some(e) => vsftpd_entry(line@) == Some(e@),
            None => vsftpd_entry(line@) is None,
        },
{
    if str_starts_with(line, "#") || !str_contains(line, "=") {
        return None;
    }
    match str_split_once(line, '=') {
        Some((k, v)) => Some(FtpConfigEntry { key: trimmed(k.as_str()), value: trimmed(v.as_str()) }),
        None => None,
    }
}

/// The `key = value` settings of a `vsftpd.conf`, skipping comments.
pub fn parse_vsftpd_config(content: &str) -> (r: Vec<FtpConfigEntry>)
    ensures
        entry_views(r@) == vsftpd_entries(lines(content@)),
{
    let ls = str_lines(content);
    let mut out: Vec<FtpConfigEntry> = Vec::new();
    let mut i: usize = 0;
    while i < ls.len()
        invariant
            i <= ls@.len(),
            entry_views(out@) == vsftpd_entries(views(ls@).take(i as int)),
        decreases ls@.len() - i,
    {
        let ghost before = out@;
        assert(views(ls@).take(i + 1).drop_last() =~= views(ls@).take(i as int));
        assert(views(ls@).take(i + 1).last() == ls@[i as int]@);
        match vsftpd_line_entry(ls[i].as_str()) {
            Some(e) => {
                out.push(e);
                assert(entry_views(out@) =~= entry_views(before).push(e@));
            },
            None => {},
        }
        i = i + 1;
    }
    assert(views(ls@).take(ls@.len() as int) =~= views(ls@));
    out
}

/// A setting that a line `key=value` gives back: a key that is not empty, does not
/// start with `#` and holds no `=`, neither part holding a line break, and no white
/// space at either end of either part.
spec fn setting_ok(p: (Seq<char>, Seq<char>)) -> bool {
    &&& p.0.len() > 0
    &&& p.0[0] != '#'
    &&& forall|i: int| 0 <= i < p.0.len() ==> #[trigger] p.0[i] != '=' && p.0[i] != '\n'
    &&& forall|i: int| 0 <= i < p.1.len() ==> #[trigger] p.1[i] != '\n'
    &&& !is_ws(p.0[0]) && !is_ws(p.0.last())
    &&& p.1.len() > 0 ==> !is_ws(p.1[0]) && !is_ws(p.1.last())
}

/// The entries that settings read back as.
pub open spec fn setting_entries(ps: Seq<(Seq<char>, Seq<char>)>) -> Seq<FtpConfigEntryView> {
    ps.map_values(|p: (Seq<char>, Seq<char>)| FtpConfigEntryView { key: p.0, value: p.1 })
}

proof fn lemma_trim_id(s: Seq<char>)
    requires
        s.len() > 0 ==> !is_ws(s[0]) && !is_ws(s.last()),
    ensures
        trim(s) == s,
{
    assert(trim_start(s) == s);
    assert(trim_end(s) == s);
}

proof fn lemma_lines_prefix(t: Seq<char>, l: Seq<char>, k: int)
    requires
        lines_acc(t).1 == Seq::<char>::empty(),
        0 <= k <= l.len(),
        forall|i: int| 0 <= i < l.len() ==> #[trigger] l[i] != '\n',
    ensures
        lines_acc(t + l.take(k)) == (lines_acc(t).0, l.take(k)),
    decreases k,
{
    if k == 0 {
        assert(t + l.take(0) =~= t);
    } else {
        lemma_lines_prefix(t, l, k - 1);
        let s = t + l.take(k);
        assert(s.drop_last() =~= t + l.take(k - 1));
        assert(s.last() == l[k - 1]);
        assert(l.take(k - 1).push(l[k - 1]) =~= l.take(k));
    }
}

proof fn lemma_lines_line(t: Seq<char>, l: Seq<char>)
    requires
        lines_acc(t).1 == Seq::<char>::empty(),
        forall|i: int| 0 <= i < l.len() ==> #[trigger] l[i] != '\n',
        strip_cr(l) == l,
    ensures
        lines_acc(t + l + "\n"@) == (lines_acc(t).0.push(l), Seq::<char>::empty()),
{
    reveal_strlit("\n");
    lemma_lines_prefix(t, l, l.len() as int);
    assert(l.take(l.len() as int) =~= l);
    let s = t + l + "\n"@;
    assert(s.drop_last() =~= t + l);
    assert(s.last() == '\n');
}

proof fn lemma_setting_line_shape(p: (Seq<char>, Seq<char>))
    requires
        setting_ok(p),
    ensures
        forall|i: int| 0 <= i < setting_line(p).len() ==> #[trigger] setting_line(p)[i] != '\n',
        strip_cr(setting_line(p)) == setting_line(p),
{
    reveal_strlit("=");
    let l = setting_line(p);
    let k = p.0.len() as int;
    assert forall|i: int| 0 <= i < l.len() implies #[trigger] l[i] != '\n' by {
        if i < k {
            assert(l[i] == p.0[i]);
        } else if i == k {
            assert(l[i] == '=');
        } else {
            assert(l[i] == p.1[i - k - 1]);
        }
    }
    if p.1.len() > 0 {
        assert(l.last() == p.1.last());
    } else {
        assert(l.last() == '=');
    }
}

proof fn lemma_settings_lines(ps: Seq<(Seq<char>, Seq<char>)>)
    requires
        forall|i: int| 0 <= i < ps.len() ==> setting_ok(#[trigger] ps[i]),
    ensures
        lines_acc(settings_text(ps)) == (
            ps.map_values(|p: (Seq<char>, Seq<char>)| setting_line(p)),
            Seq::<char>::empty(),
        ),
    decreases ps.len(),
{
    if ps.len() == 0 {
        assert(ps.map_values(|p: (Seq<char>, Seq<char>)| setting_line(p)) =~= Seq::<Seq<char>>::empty());
    } else {
        let q = ps.drop_last();
        assert forall|i: int| 0 <= i < q.len() implies setting_ok(#[trigger] q[i]) by {
            assert(q[i] == ps[i]);
        }
        lemma_settings_lines(q);
        assert(setting_ok(ps[ps.len() - 1]));
        lemma_setting_line_shape(ps.last());
        lemma_lines_line(settings_text(q), setting_line(ps.last()));
        assert(q.map_values(|p: (Seq<char>, Seq<char>)| setting_line(p)).push(setting_line(ps.last()))
            =~= ps.map_values(|p: (Seq<char>, Seq<char>)| setting_line(p)));
    }
}

proof fn lemma_entry_of_line(p: (Seq<char>, Seq<char>))
    requires
        setting_ok(p),
    ensures
        vsftpd_entry(setting_line(p)) == Some(FtpConfigEntryView { key: p.0, value: p.1 }),
{
    reveal_strlit("=");
    reveal_strlit("#");
    let l = setting_line(p);
    let k = p.0.len() as int;
    assert(l[0] == p.0[0]);
    assert(l.subrange(0, 1)[0] != "#"@[0]);
    assert(!starts_with(l, "#"@));
    assert(l.subrange(k, k + 1) =~= "="@);
    assert(occurs_at(l, "="@, k));
    assert(contains(l, "="@));
    assert forall|j: int| 0 <= j < k implies l[j] != '=' by {
        assert(l[j] == p.0[j]);
    }
    lemma_first_index_of(l, '=', k);
    assert(l.subrange(0, k) =~= p.0);
    assert(l.subrange(k + 1, l.len() as int) =~= p.1);
    lemma_trim_id(p.0);
    lemma_trim_id(p.1);
}

proof fn lemma_settings_entries(ps: Seq<(Seq<char>, Seq<char>)>)
    requires
        forall|i: int| 0 <= i < ps.len() ==> setting_ok(#[trigger] ps[i]),
    ensures
        vsftpd_entries(ps.map_values(|p: (Seq<char>, Seq<char>)| setting_line(p)))
            == setting_entries(ps),
    decreases ps.len(),
{
    let ls = ps.map_values(|p: (Seq<char>, Seq<char>)| setting_line(p));
    if ps.len() == 0 {
        assert(setting_entries(ps) =~= Seq::<FtpConfigEntryView>::empty());
    } else {
        let q = ps.drop_last();
        assert forall|i: int| 0 <= i < q.len() implies setting_ok(#[trigger] q[i]) by {
            assert(q[i] == ps[i]);
        }
        lemma_settings_entries(q);
        assert(ls.drop_last() =~= q.map_values(|p: (Seq<char>, Seq<char>)| setting_line(p)));
        assert(setting_ok(ps[ps.len() - 1]));
        lemma_entry_of_line(ps.last());
        assert(setting_entries(q).push(FtpConfigEntryView { key: ps.last().0, value: ps.last().1 })
            =~= setting_entries(ps));
    }
}

proof fn lemma_decimal_setting(n: nat)
    ensures
        decimal(n).len() > 0,
        forall|i: int| 0 <= i < decimal(n).len() ==> #[trigger] decimal(n)[i] != '\n' && !is_ws(
            decimal(n)[i],
        ),
{
    lemma_decimal_digits(n);
    assert forall|i: int| 0 <= i < decimal(n).len() implies #[trigger] decimal(n)[i] != '\n'
        && !is_ws(decimal(n)[i]) by {
        assert(is_ascii_digit(decimal(n)[i]));
    }
}

/// The configuration written for an update reads back as the settings of the
/// update: each `key=value` line gives its key and its value, in order.
pub proof fn lemma_vsftpd_config_reads_back(u: FtpConfigUpdate)
    ensures
        vsftpd_entries(lines(vsftpd_config(u))) == setting_entries(vsftpd_settings(u)),
{
    reveal_strlit("listen");
    reveal_strlit("YES");
    reveal_strlit("listen_ipv6");
    reveal_strlit("NO");
    reveal_strlit("anonymous_enable");
    reveal_strlit("local_enable");
    reveal_strlit("write_enable");
    reveal_strlit("chroot_local_user");
    reveal_strlit("listen_port");
    reveal_strlit("pasv_min_port");
    reveal_strlit("pasv_max_port");
    reveal_strlit("max_clients");
    reveal_strlit("pam_service_name");
    reveal_strlit("vsftpd");
    reveal_strlit("ssl_enable");
    lemma_decimal_setting(u.listen_port as nat);
    lemma_decimal_setting(u.pasv_min_port as nat);
    lemma_decimal_setting(u.pasv_max_port as nat);
    lemma_decimal_setting(u.max_clients as nat);
    let ps = vsftpd_settings(u);
    assert forall|i: int| 0 <= i < ps.len() implies setting_ok(#[trigger] ps[i]) by {
        assert(ps.len() == 12);
    }
    lemma_settings_lines(ps);
    lemma_settings_entries(ps);
}

/// The text of `line` before its first `c`, or all of it without a `c`.
pub open spec fn before_first(line: Seq<char>, c: char) -> Seq<char> {
    match first_index_of(line, c) {
        Some(i) => line.subrange(0, i),
        None => line,
    }
}

fn prefix_before(v: &Vec<char>, c: char) -> (r: String)
    ensures
        r@ == before_first(v@, c),
{
    match find_char_from(v, 0, c) {
        Some(i) => {
            proof {
                lemma_first_index_of(v@, c, i as int);
            }
            string_of_range(v, 0, i)
        },
        None => {
            proof {
                lemma_first_index_of_none(v@, c);
                assert(v@.subrange(0, v@.len() as int) =~= v@);
            }
            string_of_range(v, 0, v.len())
        },
    }
}

/// The FTP accounts of a passwd file: the name of each line that mentions `/srv/ftp/`
/// or `vsftpd`.
pub open spec fn ftp_accounts(ls: Seq<Seq<char>>) -> Seq<Seq<char>>
    decreases ls.len(),
{
    if ls.len() == 0 {
        Seq::empty()
    } else {
        let prev = ftp_accounts(ls.drop_last());
        let l = ls.last();
        if contains(l, "/srv/ftp/"@) || contains(l, "vsftpd"@) {
            prev.push(before_first(l, ':'))
        } else {
            prev
        }
    }
}

/// The FTP accounts named in the text of `/etc/passwd`.
pub fn ftp_users_from_passwd(content: &str) -> (r: Vec<String>)
    ensures
        views(r@) == ftp_accounts(lines(content@)),
{
    let ls = str_lines(content);
    let mut out: Vec<String> = Vec::new();
    let mut i: usize = 0;
    while i < ls.len()
        invariant
            i <= ls@.len(),
            views(out@) == ftp_accounts(views(ls@).take(i as int)),
        decreases ls@.len() - i,
    {
        let ghost before = out@;
        assert(views(ls@).take(i + 1).drop_last() =~= views(ls@).take(i as int));
        assert(views(ls@).take(i + 1).last() == ls@[i as int]@);
        let l = ls[i].as_str();
        if str_contains(l, "/srv/ftp/") || str_contains(l, "vsftpd") {
            let name = prefix_before(&chars_of(l), ':');
            out.push(name);
            assert(views(out@) =~= views(before).push(name@));
        }
        i = i + 1;
    }
    assert(views(ls@).take(ls@.len() as int) =~= views(ls@));
    out
}

// ---------------------------------------------------------------------------
// RAID arrays
// ---------------------------------------------------------------------------

pub struct RaidArrayView {
    pub name: Seq<char>,
    pub level: Seq<char>,
    pub state: Seq<char>,
    pub size: Seq<char>,
    pub devices: Seq<Seq<char>>,
    pub active_devices: Seq<char>,
}

impl View for RaidArray {
    type V = RaidArrayView;

    open spec fn view(&self) -> RaidArrayView {
        RaidArrayView {
            name: self.name@,
            level: self.level@,
            state: self.state@,
            size: self.size@,
            devices: views(self.devices@),
            active_devices: self.active_devices@,
        }
    }
}

/// The member devices named by the words of an array line: each word up to its
/// first `[`, dropping empty names.
pub open spec fn member_devices(ws: Seq<Seq<char>>) -> Seq<Seq<char>>
    decreases ws.len(),
{
    if ws.len() == 0 {
        Seq::empty()
    } else {
        let prev = member_devices(ws.drop_last());
        let d = before_first(ws.last(), '[');
        if d.len() > 0 {
            prev.push(d)
        } else {
            prev
        }
    }
}

/// The first word of `ws` that contains `blocks`, or nothing.
pub open spec fn blocks_word(ws: Seq<Seq<char>>) -> Seq<char>
    decreases ws.len(),
{
    if ws.len() == 0 {
        Seq::empty()
    } else if contains(ws[0], "blocks"@) {
        ws[0]
    } else {
        blocks_word(ws.drop_first())
    }
}

/// The array a line of `/proc/mdstat` describes, given the line after it: a line that
/// begins with `md` and has at least four words (name, `:`, state, level, members...).
/// Its size is the first word of the next line that contains `blocks`.
pub open spec fn mdstat_array(line: Seq<char>, next: Option<Seq<char>>) -> Option<RaidArrayView> {
    let w = words(line);
    if starts_with(line, "md"@) && w.len() >= 4 {
        let devices = member_devices(w.subrange(4, w.len() as int));
        Some(
            RaidArrayView {
                name: w[0],
                level: w[3],
                state: w[2],
                size: match next {
                    Some(n) => blocks_word(words(n)),
                    None => Seq::empty(),
                },
                devices,
                active_devices: decimal(devices.len()),
            },
        )
    } else {
        None
    }
}

/// The arrays described by the first `n` lines of `ls`, in order.
pub open spec fn mdstat_arrays(ls: Seq<Seq<char>>, n: int) -> Seq<RaidArrayView>
    decreases n,
{
    if n <= 0 {
        Seq::empty()
    } else {
        let prev = mdstat_arrays(ls, n - 1);
        let next = if n < ls.len() {
            Some(ls[n])
        } else {
            None
        };
        match mdstat_array(ls[n - 1], next) {
            Some(a) => prev.push(a),
            None => prev,
        }
    }
}

pub open spec fn array_views(v: Seq<RaidArray>) -> Seq<RaidArrayView> {
    v.map_values(|a: RaidArray| a@)
}

fn member_devices_exec(ws: &Vec<String>, from: usize) -> (r: Vec<String>)
    requires
        from <= ws@.len(),
    ensures
        views(r@) == member_devices(views(ws@).subrange(from as int, ws@.len() as int)),
{
    let mut out: Vec<String> = Vec::new();
    let mut i = from;
    while i < ws.len()
        invariant
            from <= i <= ws@.len(),
            views(out@) == member_devices(views(ws@).subrange(from as int, i as int)),
        decreases ws@.len() - i,
    {
        let ghost before = out@;
        let ghost sub = views(ws@).subrange(from as int, i + 1);
        assert(sub.drop_last() =~= views(ws@).subrange(from as int, i as int));
        assert(sub.last() == ws@[i as int]@);
        let d = prefix_before(&chars_of(ws[i].as_str()), '[');
        if chars_of(d.as_str()).len() > 0 {
            out.push(d);
            assert(views(out@) =~= views(before).push(d@));
        }
        i = i + 1;
    }
    out
}

fn blocks_word_exec(ws: &Vec<String>) -> (r: String)
    ensures
        r@ == blocks_word(views(ws@)),
{
    let mut i: usize = 0;
    assert(views(ws@).subrange(0, ws@.len() as int) =~= views(ws@));
    while i < ws.len()
        invariant
            i <= ws@.len(),
            blocks_word(views(ws@)) == blocks_word(views(ws@).subrange(i as int, ws@.len() as int)),
        decreases ws@.len() - i,
    {
        let ghost rest = views(ws@).subrange(i as int, ws@.len() as int);
        assert(rest[0] == ws@[i as int]@);
        if str_contains(ws[i].as_str(), "blocks") {
            return ws[i].clone();
        }
        assert(rest.drop_first() =~= views(ws@).subrange(i + 1, ws@.len() as int));
        i = i + 1;
    }
    String::new()
}

fn mdstat_line(line: &str, next: Option<&String>) -> (r: Option<RaidArray>)
    ensures
        match r {
            Some(a) => mdstat_array(
                line@,
                match next {
                    Some(n) => Some(n@),
                    None => None,
                },
            ) == Some(a@),
            None => mdstat_array(
                line@,
                match next {
                    Some(n) => Some(n@),
                    None => None,
                },
            ) is None,
        },
{
    if !str_starts_with(line, "md") {
        return None;
    }
    let parts = str_words(line);
    if parts.len() < 4 {
        return None;
    }
    let devices = member_devices_exec(&parts, 4);
    let size = match next {
        Some(n) => blocks_word_exec(&str_words(n.as_str())),
        None => String::new(),
    };
    let active = decimal_string(devices.len() as u64);
    proof {
        assert(views(parts@)[0] == parts@[0]@);
        assert(views(parts@)[2] == parts@[2]@);
        assert(views(parts@)[3] == parts@[3]@);
        assert(views(devices@).len() == devices@.len());
    }
    Some(
        RaidArray {
            name: parts[0].clone(),
            level: parts[3].clone(),
            state: parts[2].clone(),
            size,
            devices,
            active_devices: active,
        },
    )
}

/// The arrays listed in the text of `/proc/mdstat`.
pub fn parse_mdstat(content: &str) -> (r: Vec<RaidArray>)
    ensures
        array_views(r@) == mdstat_arrays(lines(content@), lines(content@).len() as int),
{
    let ls = str_lines(content);
    let ghost lv = views(ls@);
    let mut out: Vec<RaidArray> = Vec::new();
    let mut i: usize = 0;
    while i < ls.len()
        invariant
            i <= ls@.len(),
            lv == views(ls@),
            array_views(out@) == mdstat_arrays(lv, i as int),
        decreases ls@.len() - i,
    {
        let ghost before = out@;
        let next = if i + 1 < ls.len() {
            Some(&ls[i + 1])
        } else {
            None
        };
        match mdstat_line(ls[i].as_str(), next) {
            Some(a) => {
                out.push(a);
                assert(array_views(out@) =~= array_views(before).push(a@));
            },
            None => {},
        }
        i = i + 1;
    }
    out
}


// ---------------------------------------------------------------------------
// RAID creation and removal
// ---------------------------------------------------------------------------

pub open spec fn raid_level_allowed(level: Seq<char>) -> bool {
    level == "0"@ || level == "1"@ || level == "5"@ || level == "6"@ || level == "10"@
}

/// A device path the storage routes accept: under `/dev/` and without `..`.
pub open spec fn device_path_ok(dev: Seq<char>) -> bool {
    starts_with(dev, "/dev/"@) && !contains(dev, ".."@)
}

/// The `sudo` arguments that create the array.
pub open spec fn raid_create_args(name: Seq<char>, level: Seq<char>, devices: Seq<Seq<char>>) -> Seq<
    Seq<char>,
> {
    seq![
        "-n"@,
        "mdadm"@,
        "--create"@,
        "/dev/md/"@ + name,
        "--level"@,
        level,
        "--raid-devices"@,
        decimal(devices.len()),
    ] + devices + seq!["--run"@]
}

/// A RAID request is accepted exactly when its level is 0, 1, 5, 6 or 10, it names at
/// least two devices, and each device is under `/dev/` and holds no `..`. The
/// arguments then create `/dev/md/<name>` at that level over the number of devices
/// given, list the devices in order after the first eight arguments, and end with
/// `--run`.
pub proof fn lemma_raid_create_rules(name: Seq<char>, level: Seq<char>, devices: Seq<Seq<char>>)
    ensures
        raid_level_allowed(level) <==> (level == "0"@ || level == "1"@ || level == "5"@ || level
            == "6"@ || level == "10"@),
        forall|d: Seq<char>| #[trigger]
            device_path_ok(d) <==> (starts_with(d, "/dev/"@) && !contains(d, ".."@)),
        raid_create_args(name, level, devices).len() == devices.len() + 9,
        raid_create_args(name, level, devices)[1] == "mdadm"@,
        raid_create_args(name, level, devices)[2] == "--create"@,
        raid_create_args(name, level, devices)[3] == "/dev/md/"@ + name,
        raid_create_args(name, level, devices)[5] == level,
        raid_create_args(name, level, devices)[7] == decimal(devices.len()),
        forall|i: int|
            0 <= i < devices.len() ==> #[trigger] raid_create_args(name, level, devices)[8 + i]
                == devices[i],
        raid_create_args(name, level, devices)[devices.len() + 8int] == "--run"@,
{
}

/// A line of `df --output=source,target,fstype,size,used,avail,pcent` with at least
/// seven words gives a mount whose device, mount point, filesystem, size, used space,
/// available space and use percentage are its first seven words in that order; a
/// line with fewer words gives none.
pub proof fn lemma_df_columns(line: Seq<char>)
    ensures
        words(line).len() >= 7 ==> (df_mount(line) matches Some(m) && m.device == words(line)[0]
            && m.mount_point == words(line)[1] && m.filesystem == words(line)[2] && m.size
            == words(line)[3] && m.used == words(line)[4] && m.available == words(line)[5]
            && m.use_percent == words(line)[6] && m.options.len() == 0),
        words(line).len() < 7 ==> df_mount(line) is None,
{
}

/// When every line of a `df` listing has at least seven words, each line gives one
/// mount, in order, whose size, used and available space are the line's fourth,
/// fifth and sixth words.
pub proof fn lemma_df_listing_columns(ls: Seq<Seq<char>>)
    requires
        forall|i: int| 0 <= i < ls.len() ==> words(#[trigger] ls[i]).len() >= 7,
    ensures
        df_mounts(ls).len() == ls.len(),
        forall|i: int|
            0 <= i < ls.len() ==> (#[trigger] df_mounts(ls)[i]).size == words(ls[i])[3]
                && df_mounts(ls)[i].used == words(ls[i])[4] && df_mounts(ls)[i].available
                == words(ls[i])[5] && df_mounts(ls)[i].device == words(ls[i])[0]
                && df_mounts(ls)[i].mount_point == words(ls[i])[1],
    decreases ls.len(),
{
    if ls.len() > 0 {
        let q = ls.drop_last();
        assert forall|i: int| 0 <= i < q.len() implies words(#[trigger] q[i]).len() >= 7 by {
            assert(q[i] == ls[i]);
        }
        lemma_df_listing_columns(q);
        assert(words(ls[ls.len() - 1]).len() >= 7);
        lemma_df_columns(ls.last());
        assert forall|i: int| 0 <= i < ls.len() implies (#[trigger] df_mounts(ls)[i]).size
            == words(ls[i])[3] && df_mounts(ls)[i].used == words(ls[i])[4]
            && df_mounts(ls)[i].available == words(ls[i])[5] && df_mounts(ls)[i].device
            == words(ls[i])[0] && df_mounts(ls)[i].mount_point == words(ls[i])[1] by {
            if i < q.len() {
                assert(ls[i] == q[i]);
                assert(df_mounts(ls)[i] == df_mounts(q)[i]);
            }
        }
    }
}

fn device_path_ok_exec(dev: &str) -> (b: bool)
    ensures
        b == device_path_ok(dev@),
{
    str_starts_with(dev, "/dev/") && !str_contains(dev, "..")
}

/// Checks a RAID creation request and gives the `sudo` arguments that create the
/// array. Refused with `400`: a level other than 0, 1, 5, 6 or 10; fewer than two
/// devices; then the first device that is not under `/dev/` or holds `..`.
pub fn raid_create_plan(req: &RaidCreateRequest) -> (r: Result<Vec<String>, ApiError>)
    ensures
        r is Ok <==> raid_level_allowed(req.level@) && req.devices@.len() >= 2 && forall|i: int|
            0 <= i < req.devices@.len() ==> device_path_ok(#[trigger] req.devices@[i]@),
        r is Ok <==> (req.level@ == "0"@ || req.level@ == "1"@ || req.level@ == "5"@
            || req.level@ == "6"@ || req.level@ == "10"@) && req.devices@.len() >= 2 && forall|
            i: int|
            0 <= i < req.devices@.len() ==> starts_with(#[trigger] req.devices@[i]@, "/dev/"@)
                && !contains(req.devices@[i]@, ".."@),
        r matches Ok(args) ==> views(args@) == raid_create_args(
            req.name@,
            req.level@,
            views(req.devices@),
        ),
        r matches Err(e) ==> e.status == BAD_REQUEST && if !raid_level_allowed(req.level@) {
            e.message@ == "Invalid RAID level. Use: 0, 1, 5, 6, or 10"@
        } else if req.devices@.len() < 2 {
            e.message@ == "At least 2 devices required"@
        } else {
            exists|i: int|
                0 <= i < req.devices@.len() && !device_path_ok(#[trigger] req.devices@[i]@) && (
                forall|k: int| 0 <= k < i ==> device_path_ok(req.devices@[k]@)) && e.message@
                    == "Invalid device: "@ + req.devices@[i]@
        },
{
    let level = req.level.as_str();
    if !(crate::text::str_eq(level, "0") || crate::text::str_eq(level, "1") || crate::text::str_eq(
        level,
        "5",
    ) || crate::text::str_eq(level, "6") || crate::text::str_eq(level, "10")) {
        return Err(ApiError::new(BAD_REQUEST, "Invalid RAID level. Use: 0, 1, 5, 6, or 10"));
    }
    if req.devices.len() < 2 {
        return Err(ApiError::new(BAD_REQUEST, "At least 2 devices required"));
    }
    let mut i: usize = 0;
    while i < req.devices.len()
        invariant
            i <= req.devices@.len(),
            raid_level_allowed(req.level@),
            req.devices@.len() >= 2,
            forall|k: int| 0 <= k < i ==> device_path_ok(#[trigger] req.devices@[k]@),
        decreases req.devices@.len() - i,
    {
        if !device_path_ok_exec(req.devices[i].as_str()) {
            let msg = concat("Invalid device: ", req.devices[i].as_str());
            return Err(ApiError { status: BAD_REQUEST, message: msg });
        }
        i = i + 1;
    }
    let mut args: Vec<String> = vec![
        owned("-n"),
        owned("mdadm"),
        owned("--create"),
        concat("/dev/md/", req.name.as_str()),
        owned("--level"),
        req.level.clone(),
        owned("--raid-devices"),
        decimal_string(req.devices.len() as u64),
    ];
    let ghost head = views(args@);
    let mut j: usize = 0;
    while j < req.devices.len()
        invariant
            j <= req.devices@.len(),
            views(args@) == head + views(req.devices@).take(j as int),
        decreases req.devices@.len() - j,
    {
        let ghost before = args@;
        args.push(req.devices[j].clone());
        assert(views(args@) =~= views(before).push(req.devices@[j as int]@));
        assert(views(req.devices@).take(j + 1) =~= views(req.devices@).take(j as int).push(
            req.devices@[j as int]@,
        ));
        j = j + 1;
    }
    let ghost before = args@;
    args.push(owned("--run"));
    proof {
        assert(views(req.devices@).take(req.devices@.len() as int) =~= views(req.devices@));
        assert(views(args@) =~= views(before).push("--run"@));
        assert(head =~= seq![
            "-n"@,
            "mdadm"@,
            "--create"@,
            "/dev/md/"@ + req.name@,
            "--level"@,
            req.level@,
            "--raid-devices"@,
            decimal(req.devices@.len() as nat),
        ]);
        assert(views(args@) =~= raid_create_args(req.name@, req.level@, views(req.devices@)));
    }
    Ok(args)
}

/// The answer to a created array: `RAID array '<name>' created (level <level>)`.
pub fn raid_created_message(name: &str, level: &str) -> (m: String)
    ensures
        m@ == "RAID array '"@ + name@ + "' created (level "@ + level@ + ")"@,
{
    let mut m = owned("RAID array '");
    m.append(name);
    m.append("' created (level ");
    m.append(level);
    m.append(")");
    m
}

/// The `sudo` argument lists that stop and then remove the array `name`.
pub fn raid_delete_args(name: &str) -> (r: (Vec<String>, Vec<String>))
    ensures
        views(r.0@) == seq!["-n"@, "mdadm"@, "--stop"@, "/dev/md/"@ + name@],
        views(r.1@) == seq!["-n"@, "mdadm"@, "--remove"@, "/dev/md/"@ + name@],
{
    let md = concat("/dev/md/", name);
    let stop = vec![owned("-n"), owned("mdadm"), owned("--stop"), md.clone()];
    let remove = vec![owned("-n"), owned("mdadm"), owned("--remove"), md];
    assert(views(stop@) =~= seq!["-n"@, "mdadm"@, "--stop"@, "/dev/md/"@ + name@]);
    assert(views(remove@) =~= seq!["-n"@, "mdadm"@, "--remove"@, "/dev/md/"@ + name@]);
    (stop, remove)
}

/// The answer to a removed array: `RAID array '<name>' stopped and removed`.
pub fn raid_deleted_message(name: &str) -> (m: String)
    ensures
        m@ == "RAID array '"@ + name@ + "' stopped and removed"@,
{
    let mut m = owned("RAID array '");
    m.append(name);
    m.append("' stopped and removed");
    m
}

// ---------------------------------------------------------------------------
// Mounting
// ---------------------------------------------------------------------------

/// What a mount request runs: the directory to create, the mount itself and, for a
/// persistent mount, the line appended to `/etc/fstab`.
pub struct MountPlan {
    pub mkdir_args: Vec<String>,
    pub mount_args: Vec<String>,
    pub fstab_line: Option<String>,
}

/// The `sudo` arguments of the mount: `-t <fs>` for a non-empty filesystem, `-o <opts>`
/// for non-empty options, then the device and the mount point.
pub open spec fn mount_args(req: MountRequest) -> Seq<Seq<char>> {
    let a = seq!["-n"@, "mount"@];
    let b = if req.filesystem@.len() > 0 {
        a + seq!["-t"@, req.filesystem@]
    } else {
        a
    };
    let c = match req.options {
        Some(o) => if o@.len() > 0 {
            b + seq!["-o"@, o@]
        } else {
            b
        },
        None => b,
    };
    c + seq![req.device@, req.mount_point@]
}

/// The `/etc/fstab` line of a persistent mount; absent options read `defaults`.
pub open spec fn fstab_line(req: MountRequest) -> Seq<char> {
    req.device@ + " "@ + req.mount_point@ + " "@ + req.filesystem@ + " "@ + (match req.options {
        Some(o) => o@,
        None => "defaults"@,
    }) + " 0 2\n"@
}

/// The mount arguments end with the device and then the mount point; a filesystem
/// type, when given, comes right after `-n mount` as `-t <type>`, and options, when
/// given, as `-o <options>` before the device.
pub proof fn lemma_mount_args_order(req: MountRequest)
    ensures
        mount_args(req).len() >= 4,
        mount_args(req)[0] == "-n"@ && mount_args(req)[1] == "mount"@,
        mount_args(req)[mount_args(req).len() - 2] == req.device@,
        mount_args(req)[mount_args(req).len() - 1] == req.mount_point@,
        req.filesystem@.len() > 0 ==> mount_args(req)[2] == "-t"@ && mount_args(req)[3]
            == req.filesystem@,
        (req.options matches Some(o) && o@.len() > 0) ==> mount_args(req)[mount_args(req).len()
            - 4] == "-o"@ && mount_args(req)[mount_args(req).len() - 3] == req.options->0@,
        mount_args(req).len() == 4 + (if req.filesystem@.len() > 0 {
            2int
        } else {
            0
        }) + (if req.options matches Some(o) && o@.len() > 0 {
            2int
        } else {
            0
        }),
{
    reveal_strlit("-t");
    reveal_strlit("-o");
    reveal_strlit("-n");
    reveal_strlit("mount");
}

/// Checks a mount request and gives what it runs. Refused with `400`: a device not
/// under `/dev/` or holding `..`; then a mount point that is not absolute or holds `..`.
pub fn mount_plan(req: &MountRequest) -> (r: Result<MountPlan, ApiError>)
    ensures
        !device_path_ok(req.device@) ==> (r matches Err(e) && e.is(
            BAD_REQUEST,
            "Invalid device path"@,
        )),
        device_path_ok(req.device@) && !(starts_with(req.mount_point@, "/"@) && !contains(
            req.mount_point@,
            ".."@,
        )) ==> (r matches Err(e) && e.is(BAD_REQUEST, "Invalid mount point"@)),
        r matches Ok(p) ==> {
            &&& device_path_ok(req.device@)
            &&& starts_with(req.mount_point@, "/"@)
            &&& !contains(req.mount_point@, ".."@)
            &&& views(p.mkdir_args@) == seq!["-n"@, "mkdir"@, "-p"@, req.mount_point@]
            &&& views(p.mount_args@) == mount_args(*req)
            &&& match p.fstab_line {
                Some(l) => req.persistent && l@ == fstab_line(*req),
                None => !req.persistent,
            }
        },
        device_path_ok(req.device@) && starts_with(req.mount_point@, "/"@) && !contains(
            req.mount_point@,
            ".."@,
        ) ==> r is Ok,
{
    if !device_path_ok_exec(req.device.as_str()) {
        return Err(ApiError::new(BAD_REQUEST, "Invalid device path"));
    }
    let mp = req.mount_point.as_str();
    if !str_starts_with(mp, "/") || str_contains(mp, "..") {
        return Err(ApiError::new(BAD_REQUEST, "Invalid mount point"));
    }
    let mkdir_args = vec![owned("-n"), owned("mkdir"), owned("-p"), req.mount_point.clone()];
    let mut args: Vec<String> = vec![owned("-n"), owned("mount")];
    let ghost a = views(args@);
    if chars_of(req.filesystem.as_str()).len() > 0 {
        args.push(owned("-t"));
        args.push(req.filesystem.clone());
    }
    let ghost b = views(args@);
    match &req.options {
        Some(o) => {
            if chars_of(o.as_str()).len() > 0 {
                args.push(owned("-o"));
                args.push(o.clone());
            }
        },
        None => {},
    }
    let ghost c = views(args@);
    args.push(req.device.clone());
    args.push(req.mount_point.clone());
    proof {
        assert(a =~= seq!["-n"@, "mount"@]);
        assert(views(args@) =~= c + seq![req.device@, req.mount_point@]);
        assert(views(args@) =~= mount_args(*req));
        assert(views(mkdir_args@) =~= seq!["-n"@, "mkdir"@, "-p"@, req.mount_point@]);
    }
    let fstab = if req.persistent {
        let mut l = req.device.clone();
        l.append(" ");
        l.append(mp);
        l.append(" ");
        l.append(req.filesystem.as_str());
        l.append(" ");
        match &req.options {
            Some(o) => l.append(o.as_str()),
            None => l.append("defaults"),
        }
        l.append(" 0 2\n");
        Some(l)
    } else {
        None
    };
    Ok(MountPlan { mkdir_args, mount_args: args, fstab_line: fstab })
}

/// The answer to a mount: `Mounted <device> at <mount point>`.
pub fn mounted_message(device: &str, mount_point: &str) -> (m: String)
    ensures
        m@ == "Mounted "@ + device@ + " at "@ + mount_point@,
{
    let mut m = owned("Mounted ");
    m.append(device);
    m.append(" at ");
    m.append(mount_point);
    m
}

/// The `sudo` arguments that unmount `mount_point`.
pub fn unmount_args(mount_point: &str) -> (r: Vec<String>)
    ensures
        views(r@) == seq!["-n"@, "umount"@, mount_point@],
{
    let r = vec![owned("-n"), owned("umount"), owned(mount_point)];
    assert(views(r@) =~= seq!["-n"@, "umount"@, mount_point@]);
    r
}

/// The answer to an unmount: `Unmounted <mount point>`.
pub fn unmounted_message(mount_point: &str) -> (m: String)
    ensures
        m@ == "Unmounted "@ + mount_point@,
{
    concat("Unmounted ", mount_point)
}

pub struct MountPointView {
    pub device: Seq<char>,
    pub mount_point: Seq<char>,
    pub filesystem: Seq<char>,
    pub options: Seq<char>,
    pub size: Seq<char>,
    pub used: Seq<char>,
    pub available: Seq<char>,
    pub use_percent: Seq<char>,
}

impl View for MountPoint {
    type V = MountPointView;

    open spec fn view(&self) -> MountPointView {
        MountPointView {
            device: self.device@,
            mount_point: self.mount_point@,
            filesystem: self.filesystem@,
            options: self.options@,
            size: self.size@,
            used: self.used@,
            available: self.available@,
            use_percent: self.use_percent@,
        }
    }
}

/// The mount a line of `df --output=source,target,fstype,size,used,avail,pcent`
/// describes: one with at least seven words.
pub open spec fn df_mount(line: Seq<char>) -> Option<MountPointView> {
    let w = words(line);
    if w.len() >= 7 {
        Some(
            MountPointView {
                device: w[0],
                mount_point: w[1],
                filesystem: w[2],
                options: Seq::empty(),
                size: w[3],
                used: w[4],
                available: w[5],
                use_percent: w[6],
            },
        )
    } else {
        None
    }
}

/// The mounts of the lines, in order.
pub open spec fn df_mounts(ls: Seq<Seq<char>>) -> Seq<MountPointView>
    decreases ls.len(),
{
    if ls.len() == 0 {
        Seq::empty()
    } else {
        let prev = df_mounts(ls.drop_last());
        match df_mount(ls.last()) {
            Some(m) => prev.push(m),
            None => prev,
        }
    }
}

pub open spec fn mount_views(v: Seq<MountPoint>) -> Seq<MountPointView> {
    v.map_values(|m: MountPoint| m@)
}

fn df_line(line: &str) -> (r: Option<MountPoint>)
    ensures
        match r {
            Some(m) => df_mount(line@) == Some(m@),
            None => df_mount(line@) is None,
        },
{
    let p = str_words(line);
    if p.len() < 7 {
        return None;
    }
    let m = MountPoint {
        device: p[0].clone(),
        mount_point: p[1].clone(),
        filesystem: p[2].clone(),
        options: String::new(),
        size: p[3].clone(),
        used: p[4].clone(),
        available: p[5].clone(),
        use_percent: p[6].clone(),
    };
    proof {
        assert(views(p@)[0] == p@[0]@);
        assert(views(p@)[1] == p@[1]@);
        assert(views(p@)[2] == p@[2]@);
        assert(views(p@)[3] == p@[3]@);
        assert(views(p@)[4] == p@[4]@);
        assert(views(p@)[5] == p@[5]@);
        assert(views(p@)[6] == p@[6]@);
        assert(m@.options =~= Seq::<char>::empty());
    }
    Some(m)
}

/// The mounts listed by `df`, whose first line is a header.
pub fn mounts_from_df(stdout: &str) -> (r: Vec<MountPoint>)
    ensures
        mount_views(r@) == df_mounts(crate::updates::after_header(lines(stdout@))),
{
    let ls = str_lines(stdout);
    let mut out: Vec<MountPoint> = Vec::new();
    if ls.len() == 0 {
        return out;
    }
    let ghost body = views(ls@).drop_first();
    let mut i: usize = 1;
    while i < ls.len()
        invariant
            1 <= i <= ls@.len(),
            body == views(ls@).drop_first(),
            mount_views(out@) == df_mounts(body.take(i - 1)),
        decreases ls@.len() - i,
    {
        let ghost before = out@;
        assert(body.take(i as int).drop_last() =~= body.take(i - 1));
        assert(body.take(i as int).last() == ls@[i as int]@);
        match df_line(ls[i].as_str()) {
            Some(m) => {
                out.push(m);
                assert(mount_views(out@) =~= mount_views(before).push(m@));
            },
            None => {},
        }
        i = i + 1;
    }
    assert(body.take(ls@.len() - 1) =~= body);
    out
}

// ---------------------------------------------------------------------------
// Block devices
// ---------------------------------------------------------------------------

/// The text members of a device object of `lsblk -J`: `name`, `size`, `type`,
/// `mountpoint` and `fstype`, each `None` when absent or not a string.
pub struct LsblkRecord {
    pub name: Option<String>,
    pub size: Option<String>,
    pub device_type: Option<String>,
    pub mountpoint: Option<String>,
    pub filesystem: Option<String>,
}

pub open spec fn ov(o: Option<String>) -> Option<Seq<char>> {
    match o {
        Some(s) => Some(s@),
        None => None,
    }
}

pub open spec fn record_view(r: LsblkRecord) -> (
    Option<Seq<char>>,
    Option<Seq<char>>,
    Option<Seq<char>>,
    Option<Seq<char>>,
    Option<Seq<char>>,
) {
    (ov(r.name), ov(r.size), ov(r.device_type), ov(r.mountpoint), ov(r.filesystem))
}

/// What the JSON text of `lsblk -J` lists: for each element of the top-level
/// `blockdevices` array, its `name`, `size`, `type`, `mountpoint` and `fstype` strings;
/// nothing when the text is not JSON or has no such array.
pub uninterp spec fn lsblk_devices(text: Seq<char>) -> Seq<
    (Option<Seq<char>>, Option<Seq<char>>, Option<Seq<char>>, Option<Seq<char>>, Option<Seq<char>>),
>;

/// Calls `serde_json::from_str::<Value>` and reads the string members of each element of
/// `blockdevices`. Trusted: the records are `lsblk_devices(stdout)`.
#[verifier::external_body]
fn lsblk_records(stdout: &str) -> (r: Vec<LsblkRecord>)
    ensures
        r@.map_values(|x: LsblkRecord| record_view(x)) == lsblk_devices(stdout@),
{
    let v: serde_json::Value = serde_json::from_str(stdout).unwrap_or(serde_json::Value::Null);
    let text = |d: &serde_json::Value, k: &str| d[k].as_str().map(str::to_owned);
    match v["blockdevices"].as_array() {
        Some(a) => a.iter().map(|d| LsblkRecord {
            name: text(d, "name"), size: text(d, "size"), device_type: text(d, "type"),
            mountpoint: text(d, "mountpoint"), filesystem: text(d, "fstype"),
        }).collect(),
        None => Vec::new(),
    }
}

pub struct BlockDeviceView {
    pub name: Seq<char>,
    pub size: Seq<char>,
    pub device_type: Seq<char>,
    pub mountpoint: Seq<char>,
    pub filesystem: Seq<char>,
}

impl View for BlockDevice {
    type V = BlockDeviceView;

    open spec fn view(&self) -> BlockDeviceView {
        BlockDeviceView {
            name: self.name@,
            size: self.size@,
            device_type: self.device_type@,
            mountpoint: self.mountpoint@,
            filesystem: self.filesystem@,
        }
    }
}

pub open spec fn or_empty(o: Option<Seq<char>>) -> Seq<char> {
    match o {
        Some(s) => s,
        None => Seq::empty(),
    }
}

/// The device a record describes: its name under `/dev/`, and empty text for each
/// member that is missing.
pub open spec fn block_device_of(
    r: (Option<Seq<char>>, Option<Seq<char>>, Option<Seq<char>>, Option<Seq<char>>, Option<Seq<char>>),
) -> BlockDeviceView {
    BlockDeviceView {
        name: "/dev/"@ + or_empty(r.0),
        size: or_empty(r.1),
        device_type: or_empty(r.2),
        mountpoint: or_empty(r.3),
        filesystem: or_empty(r.4),
    }
}

fn text_or_empty(o: &Option<String>) -> (s: String)
    ensures
        s@ == or_empty(ov(*o)),
{
    match o {
        Some(t) => t.clone(),
        None => String::new(),
    }
}

/// The block devices listed by `lsblk -J -o NAME,SIZE,TYPE,MOUNTPOINT,FSTYPE`.
pub fn block_devices_from_lsblk(stdout: &str) -> (r: Vec<BlockDevice>)
    ensures
        r@.map_values(|d: BlockDevice| d@) == lsblk_devices(stdout@).map_values(
            |x| block_device_of(x),
        ),
{
    let records = lsblk_records(stdout);
    let mut out: Vec<BlockDevice> = Vec::new();
    let mut i: usize = 0;
    while i < records.len()
        invariant
            i <= records@.len(),
            records@.map_values(|x: LsblkRecord| record_view(x)) == lsblk_devices(stdout@),
            out@.len() == i,
            forall|k: int|
                0 <= k < i ==> (#[trigger] out@[k])@ == block_device_of(
                    record_view(records@[k]),
                ),
        decreases records@.len() - i,
    {
        let rec = &records[i];
        let name = match &rec.name {
            Some(n) => concat("/dev/", n.as_str()),
            None => owned("/dev/"),
        };
        let d = BlockDevice {
            name,
            size: text_or_empty(&rec.size),
            device_type: text_or_empty(&rec.device_type),
            mountpoint: text_or_empty(&rec.mountpoint),
            filesystem: text_or_empty(&rec.filesystem),
        };
        proof {
            assert(d@.name =~= "/dev/"@ + or_empty(ov(rec.name)));
        }
        out.push(d);
        i = i + 1;
    }
    proof {
        let a = out@.map_values(|d: BlockDevice| d@);
        let b = lsblk_devices(stdout@).map_values(|x| block_device_of(x));
        assert forall|k: int| 0 <= k < a.len() implies a[k] == b[k] by {
            assert(lsblk_devices(stdout@)[k] == record_view(records@[k]));
        }
        assert(a =~= b);
    }
    out
}

// ---------------------------------------------------------------------------
// FTP accounts
// ---------------------------------------------------------------------------

/// What adding an FTP account runs: `useradd` with the home directory, and the
/// `user:password` line fed to `chpasswd`.
pub struct FtpUserPlan {
    pub useradd_args: Vec<String>,
    pub chpasswd_input: String,
}

pub open spec fn ftp_username_char(c: char) -> bool {
    crate::text::unicode_alphanumeric(c) || c == '_' || c == '-'
}

/// The home directory of a new FTP account: the one asked for, else `/srv/ftp/<user>`.
pub open spec fn ftp_home(req: FtpUserRequest) -> Seq<char> {
    match req.directory {
        Some(d) => d@,
        None => "/srv/ftp/"@ + req.username@,
    }
}

/// Checks an FTP account request and gives what it runs. A username with a character
/// other than a letter, a digit, `_` or `-` is refused with `400` (an empty username
/// passes).
pub fn ftp_user_plan(req: &FtpUserRequest) -> (r: Result<FtpUserPlan, ApiError>)
    ensures
        r is Ok <==> forall|i: int|
            0 <= i < req.username@.len() ==> ftp_username_char(#[trigger] req.username@[i]),
        r matches Err(e) ==> e.is(BAD_REQUEST, "Invalid username"@),
        r matches Ok(p) ==> views(p.useradd_args@) == seq![
            "-n"@,
            "useradd"@,
            "-m"@,
            "-d"@,
            ftp_home(*req),
            "-s"@,
            "/usr/sbin/nologin"@,
            req.username@,
        ] && p.chpasswd_input@ == req.username@ + ":"@ + req.password@,
{
    let v = chars_of(req.username.as_str());
    let mut i: usize = 0;
    while i < v.len()
        invariant
            i <= v@.len(),
            v@ == req.username@,
            forall|k: int| 0 <= k < i ==> ftp_username_char(#[trigger] v@[k]),
        decreases v@.len() - i,
    {
        let c = v[i];
        if !(crate::text::is_alphanumeric(c) || c == '_' || c == '-') {
            assert(!ftp_username_char(req.username@[i as int]));
            return Err(ApiError::new(BAD_REQUEST, "Invalid username"));
        }
        i = i + 1;
    }
    let home = match &req.directory {
        Some(d) => d.clone(),
        None => concat("/srv/ftp/", req.username.as_str()),
    };
    let args = vec![
        owned("-n"),
        owned("useradd"),
        owned("-m"),
        owned("-d"),
        home,
        owned("-s"),
        owned("/usr/sbin/nologin"),
        req.username.clone(),
    ];
    let mut input = req.username.clone();
    input.append(":");
    input.append(req.password.as_str());
    proof {
        assert(views(args@) =~= seq![
            "-n"@,
            "useradd"@,
            "-m"@,
            "-d"@,
            ftp_home(*req),
            "-s"@,
            "/usr/sbin/nologin"@,
            req.username@,
        ]);
    }
    Ok(FtpUserPlan { useradd_args: args, chpasswd_input: input })
}

/// The `sudo` arguments that delete the FTP account `name` with its home.
pub fn ftp_userdel_args(name: &str) -> (r: Vec<String>)
    ensures
        views(r@) == seq!["-n"@, "userdel"@, "-r"@, name@],
{
    let r = vec![owned("-n"), owned("userdel"), owned("-r"), owned(name)];
    assert(views(r@) =~= seq!["-n"@, "userdel"@, "-r"@, name@]);
    r
}

/// The answer to an FTP account change: `FTP user '<name>' <verb>`.
pub fn ftp_user_message(name: &str, created: bool) -> (m: String)
    ensures
        m@ == "FTP user '"@ + name@ + (if created {
            "' created"@
        } else {
            "' deleted"@
        }),
{
    let mut m = owned("FTP user '");
    m.append(name);
    if created {
        m.append("' created");
    } else {
        m.append("' deleted");
    }
    m
}


/// Every storage change (FTP, RAID, mounts) is for admins (`403`).
pub fn check_storage_admin(user: &AuthenticatedUser) -> (r: Result<(), ApiError>)
    ensures
        r is Ok <==> is_admin(user.role@),
        r matches Err(e) ==> e.is(FORBIDDEN, "Admin access required"@),
{
    require_admin(user, "Admin access required")
}

} // verus!
