//! The console welcome screen: its figures, the menu choices and the commands they run.
use vstd::prelude::*;

use crate::text::{chars_of, concat, decimal, decimal_string, join, owned, str_eq, trim, trimmed, views};

verus! {

/// An uptime as days, hours and minutes: `Dd Hh Mm` when there are whole days,
/// `Hh Mm` when there are whole hours, else `Mm`.
pub open spec fn uptime_text(seconds: nat) -> Seq<char> {
    let days = seconds / 86400;
    let hours = (seconds % 86400) / 3600;
    let minutes = (seconds % 3600) / 60;
    if days > 0 {
        decimal(days) + "d "@ + decimal(hours) + "h "@ + decimal(minutes) + "m"@
    } else if hours > 0 {
        decimal(hours) + "h "@ + decimal(minutes) + "m"@
    } else {
        decimal(minutes) + "m"@
    }
}

pub fn format_uptime(seconds: u64) -> (s: String)
    ensures
        s@ == uptime_text(seconds as nat),
{
    let days = seconds / 86400;
    let hours = (seconds % 86400) / 3600;
    let minutes = (seconds % 3600) / 60;
    let mut s = String::new();
    if days > 0 {
        s.append(decimal_string(days).as_str());
        s.append("d ");
    }
    if days > 0 || hours > 0 {
        s.append(decimal_string(hours).as_str());
        s.append("h ");
    }
    s.append(decimal_string(minutes).as_str());
    s.append("m");
    proof {
        reveal_strlit("");
    }
    s
}

/// The hours and minutes shown never exceed a day and an hour.
pub proof fn lemma_uptime_fields(seconds: nat)
    ensures
        (seconds % 86400) / 3600 < 24,
        (seconds % 3600) / 60 < 60,
{
}

/// The share of memory in use, in whole percent rounded down; 0 without memory.
pub fn memory_percent(used_mib: u64, total_mib: u64) -> (p: u64)
    requires
        used_mib * 100 <= u64::MAX,
    ensures
        p == if total_mib > 0 {
            (used_mib * 100) / (total_mib as int)
        } else {
            0
        },
{
    if total_mib > 0 {
        (used_mib * 100) / total_mib
    } else {
        0
    }
}

/// The processor label of the dashboard: the trimmed brand of the first processor,
/// or `CPU` when there is none or it is blank.
pub fn cpu_label(brand: Option<&str>) -> (s: String)
    ensures
        s@ == match brand {
            Some(b) => if trim(b@).len() > 0 {
                trim(b@)
            } else {
                "CPU"@
            },
            None => "CPU"@,
        },
{
    match brand {
        Some(b) => {
            let t = trimmed(b);
            if chars_of(t.as_str()).len() > 0 {
                t
            } else {
                owned("CPU")
            }
        },
        None => owned("CPU"),
    }
}

/// The processor model reported by the monitor: the trimmed brand of the first
/// processor, or `Unknown` when there is none.
pub fn cpu_model(brand: Option<&str>) -> (s: String)
    ensures
        s@ == match brand {
            Some(b) => trim(b@),
            None => "Unknown"@,
        },
{
    match brand {
        Some(b) => trimmed(b),
        None => owned("Unknown"),
    }
}

/// An entry of the main menu.
#[derive(PartialEq, Eq, Structural, Clone, Copy, Debug)]
pub enum MenuChoice {
    Hardware,
    Network,
    Disks,
    FailedUnits,
    Journal,
    Upgrade,
    Shell,
    NetworkTui,
    Power,
    Exit,
    Other,
}

/// The entry a typed line selects: the trimmed line `1` to `9` or `0`.
pub open spec fn menu_choice_of(line: Seq<char>) -> MenuChoice {
    let t = trim(line);
    if t == "1"@ {
        MenuChoice::Hardware
    } else if t == "2"@ {
        MenuChoice::Network
    } else if t == "3"@ {
        MenuChoice::Disks
    } else if t == "4"@ {
        MenuChoice::FailedUnits
    } else if t == "5"@ {
        MenuChoice::Journal
    } else if t == "6"@ {
        MenuChoice::Upgrade
    } else if t == "7"@ {
        MenuChoice::Shell
    } else if t == "8"@ {
        MenuChoice::NetworkTui
    } else if t == "9"@ {
        MenuChoice::Power
    } else if t == "0"@ {
        MenuChoice::Exit
    } else {
        MenuChoice::Other
    }
}

/// The main menu entry a typed line selects.
pub fn menu_choice(line: &str) -> (c: MenuChoice)
    ensures
        c == menu_choice_of(line@),
{
    let t = trimmed(line);
    let t = t.as_str();
    if str_eq(t, "1") {
        MenuChoice::Hardware
    } else if str_eq(t, "2") {
        MenuChoice::Network
    } else if str_eq(t, "3") {
        MenuChoice::Disks
    } else if str_eq(t, "4") {
        MenuChoice::FailedUnits
    } else if str_eq(t, "5") {
        MenuChoice::Journal
    } else if str_eq(t, "6") {
        MenuChoice::Upgrade
    } else if str_eq(t, "7") {
        MenuChoice::Shell
    } else if str_eq(t, "8") {
        MenuChoice::NetworkTui
    } else if str_eq(t, "9") {
        MenuChoice::Power
    } else if str_eq(t, "0") {
        MenuChoice::Exit
    } else {
        MenuChoice::Other
    }
}

/// An entry of the power menu.
#[derive(PartialEq, Eq, Structural, Clone, Copy, Debug)]
pub enum PowerChoice {
    Reboot,
    Shutdown,
    Back,
    Other,
}

/// The power menu entry a typed line selects: the trimmed line `1`, `2` or `3`.
pub fn power_choice(line: &str) -> (c: PowerChoice)
    ensures
        c == (if trim(line@) == "1"@ {
            PowerChoice::Reboot
        } else if trim(line@) == "2"@ {
            PowerChoice::Shutdown
        } else if trim(line@) == "3"@ {
            PowerChoice::Back
        } else {
            PowerChoice::Other
        }),
{
    let t = trimmed(line);
    let t = t.as_str();
    if str_eq(t, "1") {
        PowerChoice::Reboot
    } else if str_eq(t, "2") {
        PowerChoice::Shutdown
    } else if str_eq(t, "3") {
        PowerChoice::Back
    } else {
        PowerChoice::Other
    }
}

/// A command to run: the program and its arguments.
pub struct Command {
    pub program: String,
    pub args: Vec<String>,
}

pub open spec fn command_view(c: Command) -> (Seq<char>, Seq<Seq<char>>) {
    (c.program@, views(c.args@))
}

fn command(program: &str, args: Vec<String>) -> (c: Command)
    ensures
        c.program@ == program@,
        c.args == args,
{
    Command { program: owned(program), args }
}

/// The commands a menu entry runs, in order: none for the entries handled otherwise.
pub open spec fn menu_commands_of(c: MenuChoice) -> Seq<(Seq<char>, Seq<Seq<char>>)> {
    match c {
        MenuChoice::Network => seq![("ip"@, seq!["-br"@, "a"@])],
        MenuChoice::Disks => seq![("df"@, seq!["-hT"@])],
        MenuChoice::FailedUnits => seq![("systemctl"@, seq!["--no-pager"@, "--failed"@])],
        MenuChoice::Journal => seq![("journalctl"@, seq!["-n"@, "80"@, "--no-pager"@])],
        MenuChoice::Upgrade => seq![
            ("sudo"@, seq!["apt"@, "update"@]),
            ("sudo"@, seq!["apt"@, "full-upgrade"@, "-y"@]),
        ],
        MenuChoice::NetworkTui => seq![("nmtui"@, Seq::empty())],
        _ => Seq::empty(),
    }
}

/// The commands a menu entry runs.
pub fn menu_commands(c: MenuChoice) -> (r: Vec<Command>)
    ensures
        r@.map_values(|x: Command| command_view(x)) == menu_commands_of(c),
{
    let r = match c {
        MenuChoice::Network => vec![command("ip", vec![owned("-br"), owned("a")])],
        MenuChoice::Disks => vec![command("df", vec![owned("-hT")])],
        MenuChoice::FailedUnits => vec![
            command("systemctl", vec![owned("--no-pager"), owned("--failed")]),
        ],
        MenuChoice::Journal => vec![
            command("journalctl", vec![owned("-n"), owned("80"), owned("--no-pager")]),
        ],
        MenuChoice::Upgrade => vec![
            command("sudo", vec![owned("apt"), owned("update")]),
            command("sudo", vec![owned("apt"), owned("full-upgrade"), owned("-y")]),
        ],
        MenuChoice::NetworkTui => vec![command("nmtui", Vec::new())],
        _ => Vec::new(),
    };
    proof {
        let a = r@.map_values(|x: Command| command_view(x));
        let b = menu_commands_of(c);
        assert(a.len() == b.len());
        assert forall|i: int| 0 <= i < a.len() implies a[i] == b[i] by {
            assert(views(r@[i].args@) =~= b[i].1);
        }
        assert(a =~= b);
    }
    r
}

/// The heading printed before a command runs: the program, a space, and the
/// arguments joined by spaces.
pub fn command_line(c: &Command) -> (s: String)
    ensures
        s@ == c.program@ + " "@ + join(views(c.args@), " "@),
{
    let mut s = c.program.clone();
    s.append(" ");
    let a = crate::text::join_from(&c.args, 0, " ");
    assert(views(c.args@).subrange(0, c.args@.len() as int) =~= views(c.args@));
    s.append(a.as_str());
    s
}

} // verus!
