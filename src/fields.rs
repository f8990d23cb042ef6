//! The fields of the prompt, the values read for them, and the text each one shows.

use vstd::prelude::*;
use crate::number::{digits, decimal, port_value, port_error_message, parse_port, port_error_text, unsigned_text, signed_text};
use crate::style::{Escapes, Paint, painted, painted_bold};
use crate::text::{split_spaces, split_at_spaces, views, home_relative, show_dir};

verus! {

/// One bracketed segment of the prompt.
#[derive(Clone, Copy, Debug, PartialEq, Eq)]
pub enum Field {
    ExitCode,
    Git,
    Network,
    Platform,
    Ppid,
    Prompt,
    Pwd,
    Time,
    Tty,
    Whoami,
}

/// Where the current SSH session comes from, as the environment tells it.
pub enum Origin {
    /// No SSH session.
    Absent,
    /// The value is there but is not valid Unicode.
    NotUnicode,
    /// The value, and what reading its third space-separated piece as an IP
    /// address gave: the address as text, or the parser's message.
    Present { connection: String, server_ip: Result<String, String> },
}

/// The user, the host (if it could be had) and the SSH origin.
pub struct WhoamiReading {
    pub user: String,
    pub host: Option<String>,
    pub origin: Origin,
}

/// What looking for a git repository around the working directory found.
pub enum GitReading {
    NoRepository,
    /// A repository whose HEAD has this short name, if it has one.
    Head(Option<String>),
    /// A repository whose HEAD could not be read, with the message to show.
    HeadFailed(String),
}

/// The operating system's description.
pub struct PlatformReading {
    pub distribution: String,
    pub os_version: Option<String>,
    pub kernel_release: Result<String, String>,
    pub arch: String,
}

/// Everything the fields show, read once before the prompt is drawn.
pub struct Sources {
    pub whoami: WhoamiReading,
    pub cwd: Result<String, String>,
    pub home: Option<String>,
    pub ppid: u32,
    pub time: String,
    pub platform: PlatformReading,
    /// Bytes received, one entry per network interface.
    pub received: Vec<u64>,
    /// Bytes sent, one entry per network interface.
    pub transmitted: Vec<u64>,
    pub tty: Result<String, String>,
    pub git: GitReading,
}

/// What a field shows: its text, or the message of its failure.
pub type Body = Result<Seq<char>, Seq<char>>;

pub open spec fn body_view(r: Result<String, String>) -> Body {
    match r {
        Ok(t) => Ok(t@),
        Err(m) => Err(m@),
    }
}

pub open spec fn opt_view(o: Option<String>) -> Option<Seq<char>> {
    match o {
        Some(s) => Some(s@),
        None => None,
    }
}

/// The human-readable size that bytesize writes for a byte count.
pub uninterp spec fn byte_size_text(n: u64) -> Seq<char>;

/// Relies on bytesize's `Display for ByteSize` (its `to_string(bytes, false)`):
/// the text depends on the count alone, and below 1000 it is the count and " B".
#[verifier::external_body]
fn human_size(n: u64) -> (r: String)
    ensures
        r@ == byte_size_text(n),
        n < 1000 ==> r@ == digits(n as nat) + " B"@,
{
    bytesize::ByteSize(n).to_string()
}

// ---- exit status ----

pub open spec fn exit_body(esc: Escapes, exit: Option<i32>) -> Body {
    match exit {
        None => Ok(Seq::<char>::empty()),
        Some(v) => if v == 0 {
            Ok(painted_bold(esc.begin@, esc.end@, Paint::Green, "0"@))
        } else {
            Ok(painted_bold(esc.begin@, esc.end@, Paint::Red, decimal(v as int)))
        },
    }
}

/// The previous command's status: green and bold when 0, red and bold otherwise,
/// empty when there is none.
pub fn exit_text(esc: &Escapes, exit: Option<i32>) -> (r: Result<String, String>)
    ensures
        body_view(r) == exit_body(*esc, exit),
{
    match exit {
        None => Ok(String::new()),
        Some(v) => {
            if v == 0 {
                Ok(esc.paint_bold(Paint::Green, "0"))
            } else {
                let t = signed_text(v);
                Ok(esc.paint_bold(Paint::Red, t.as_str()))
            }
        },
    }
}

// ---- user and host ----

pub open spec fn host_shown(host: Option<String>) -> Seq<char> {
    match host {
        Some(h) => h@,
        None => "???"@,
    }
}

/// `user@host`, each name in bold.
pub open spec fn user_at_host(esc: Escapes, w: WhoamiReading) -> Seq<char> {
    painted(esc.begin@, esc.end@, Paint::Bold, w.user@) + "@"@
        + painted(esc.begin@, esc.end@, Paint::Bold, host_shown(w.host))
}

pub open spec fn whoami_body(esc: Escapes, w: WhoamiReading) -> Body {
    let first = user_at_host(esc, w);
    match w.origin {
        Origin::Absent => Ok(painted(esc.begin@, esc.end@, Paint::Cyan, first)),
        Origin::NotUnicode => Err("Invalid UTF-8 for SSH_CONNECTION"@),
        Origin::Present { connection, server_ip } => {
            let p = split_spaces(connection@);
            if p.len() < 3 {
                Err("Missing server IP"@)
            } else {
                match server_ip {
                    Err(m) => Err(m@),
                    Ok(ip) => if p.len() < 4 {
                        Err("Missing server port"@)
                    } else {
                        match port_value(p[3]) {
                            Err(e) => Err(port_error_message(e)),
                            Ok(port) => Ok(painted(
                                esc.begin@,
                                esc.end@,
                                Paint::Cyan,
                                first + " ("@ + ip@ + ":"@ + digits(port) + ")"@,
                            )),
                        }
                    },
                }
            }
        },
    }
}

/// The server address piece of an SSH origin value (its third piece), if it has one.
pub fn server_ip_text(connection: &str) -> (r: Option<String>)
    ensures
        opt_view(r) == (if split_spaces(connection@).len() >= 3 {
            Some(split_spaces(connection@)[2])
        } else {
            None::<Seq<char>>
        }),
{
    let mut pieces = split_at_spaces(connection);
    if pieces.len() >= 3 {
        assert(views(pieces@)[2] == pieces@[2]@);
        Some(pieces.swap_remove(2))
    } else {
        None
    }
}

/// The user and the host, followed by ` (ip:port)` of the SSH server when the
/// session comes over SSH, all in cyan.
pub fn whoami_text(esc: &Escapes, w: &WhoamiReading) -> (r: Result<String, String>)
    ensures
        body_view(r) == whoami_body(*esc, *w),
{
    let mut first = esc.paint(Paint::Bold, w.user.as_str());
    first.append("@");
    match &w.host {
        Some(h) => esc.paint_into(&mut first, Paint::Bold, h.as_str()),
        None => esc.paint_into(&mut first, Paint::Bold, "???"),
    }
    assert(first@ =~= user_at_host(*esc, *w));
    match &w.origin {
        Origin::Absent => Ok(esc.paint(Paint::Cyan, first.as_str())),
        Origin::NotUnicode => Err(String::from_str("Invalid UTF-8 for SSH_CONNECTION")),
        Origin::Present { connection, server_ip } => {
            let pieces = split_at_spaces(connection.as_str());
            if pieces.len() < 3 {
                return Err(String::from_str("Missing server IP"));
            }
            match server_ip {
                Err(m) => Err(m.clone()),
                Ok(ip) => {
                    if pieces.len() < 4 {
                        return Err(String::from_str("Missing server port"));
                    }
                    assert(views(pieces@)[3] == pieces@[3]@);
                    match parse_port(pieces[3].as_str()) {
                        Err(e) => Err(port_error_text(e)),
                        Ok(port) => {
                            first.append(" (");
                            first.append(ip.as_str());
                            first.append(":");
                            let pt = unsigned_text(port as u64);
                            first.append(pt.as_str());
                            first.append(")");
                            Ok(esc.paint(Paint::Cyan, first.as_str()))
                        },
                    }
                },
            }
        },
    }
}

// ---- git ----

pub open spec fn git_body(esc: Escapes, g: GitReading) -> Body {
    match g {
        GitReading::NoRepository => Ok(Seq::<char>::empty()),
        GitReading::Head(Some(name)) => Ok(painted(esc.begin@, esc.end@, Paint::Yellow, name@)),
        GitReading::Head(None) => Ok(painted(esc.begin@, esc.end@, Paint::Yellow, "<UNKNOWN>"@)),
        GitReading::HeadFailed(m) => Err(m@),
    }
}

/// The short name of HEAD in yellow; nothing outside a repository.
pub fn git_text(esc: &Escapes, g: &GitReading) -> (r: Result<String, String>)
    ensures
        body_view(r) == git_body(*esc, *g),
{
    match g {
        GitReading::NoRepository => Ok(String::new()),
        GitReading::Head(Some(name)) => Ok(esc.paint(Paint::Yellow, name.as_str())),
        GitReading::Head(None) => Ok(esc.paint(Paint::Yellow, "<UNKNOWN>")),
        GitReading::HeadFailed(m) => Err(m.clone()),
    }
}

// ---- network ----

/// The sum of the counts.
pub open spec fn total(s: Seq<u64>) -> nat
    decreases s.len(),
{
    if s.len() == 0 {
        0
    } else {
        total(s.drop_last()) + s.last() as nat
    }
}

/// The sum of the counts, held at the largest `u64` when it does not fit.
pub open spec fn capped_total(s: Seq<u64>) -> u64 {
    if total(s) > u64::MAX {
        u64::MAX
    } else {
        total(s) as u64
    }
}

/// Adds up byte counts, stopping at the largest `u64`.
pub fn sum_counts(v: &Vec<u64>) -> (r: u64)
    ensures
        r == capped_total(v@),
{
    let mut acc: u64 = 0;
    let mut i: usize = 0;
    while i < v.len()
        invariant
            i <= v@.len(),
            acc == capped_total(v@.take(i as int)),
        decreases v@.len() - i,
    {
        assert(v@.take(i + 1).drop_last() =~= v@.take(i as int));
        acc = acc.saturating_add(v[i]);
        i += 1;
    }
    assert(v@.take(v@.len() as int) =~= v@);
    acc
}

/// The traffic line: received after an up arrow, sent after a down arrow.
pub open spec fn traffic(received: Seq<char>, sent: Seq<char>) -> Seq<char> {
    "↑"@ + received + "↓"@ + sent
}

pub open spec fn network_body(received: Seq<u64>, transmitted: Seq<u64>) -> Body {
    Ok(traffic(byte_size_text(capped_total(received)), byte_size_text(capped_total(transmitted))))
}

/// Joins the two size texts into the traffic line.
pub fn traffic_text(received: &str, sent: &str) -> (r: String)
    ensures
        r@ == traffic(received@, sent@),
{
    let mut t = String::from_str("↑");
    t.append(received);
    t.append("↓");
    t.append(sent);
    t
}

/// Bytes received and sent over all interfaces, as human-readable sizes.
pub fn network_text(received: &Vec<u64>, transmitted: &Vec<u64>) -> (r: Result<String, String>)
    ensures
        body_view(r) == network_body(received@, transmitted@),
{
    let up = human_size(sum_counts(received));
    let down = human_size(sum_counts(transmitted));
    Ok(traffic_text(up.as_str(), down.as_str()))
}

// ---- platform ----

pub open spec fn platform_body(esc: Escapes, p: PlatformReading) -> Body {
    match p.kernel_release {
        Err(m) => Err(m@),
        Ok(k) => Ok(painted(esc.begin@, esc.end@, Paint::Red, match p.os_version {
            Some(v) => p.distribution@ + " ("@ + v@ + ")/"@ + k@ + "/"@ + p.arch@,
            None => k@ + "/"@ + p.arch@,
        })),
    }
}

/// `distribution (version)/kernel/arch` in red, or `kernel/arch` when the version
/// is unknown.
pub fn platform_text(esc: &Escapes, p: &PlatformReading) -> (r: Result<String, String>)
    ensures
        body_view(r) == platform_body(*esc, *p),
{
    match &p.kernel_release {
        Err(m) => Err(m.clone()),
        Ok(k) => {
            let mut t = String::new();
            match &p.os_version {
                Some(v) => {
                    t.append(p.distribution.as_str());
                    t.append(" (");
                    t.append(v.as_str());
                    t.append(")/");
                },
                None => {},
            }
            t.append(k.as_str());
            t.append("/");
            t.append(p.arch.as_str());
            Ok(esc.paint(Paint::Red, t.as_str()))
        },
    }
}

// ---- the remaining fields ----

pub open spec fn pwd_body(esc: Escapes, cwd: Result<String, String>, home: Option<String>) -> Body {
    match cwd {
        Err(m) => Err(m@),
        Ok(c) => Ok(painted_bold(esc.begin@, esc.end@, Paint::Yellow, home_relative(c@, opt_view(home)))),
    }
}

/// The working directory, `~`-relative at or below the home directory, yellow and bold.
pub fn pwd_text(esc: &Escapes, cwd: &Result<String, String>, home: &Option<String>) -> (r: Result<String, String>)
    ensures
        body_view(r) == pwd_body(*esc, *cwd, *home),
{
    match cwd {
        Err(m) => Err(m.clone()),
        Ok(c) => {
            let shown = match home {
                Some(h) => show_dir(c.as_str(), Some(h.as_str())),
                None => show_dir(c.as_str(), None),
            };
            Ok(esc.paint_bold(Paint::Yellow, shown.as_str()))
        },
    }
}

pub open spec fn ppid_body(esc: Escapes, ppid: u32) -> Body {
    Ok(painted(esc.begin@, esc.end@, Paint::Yellow, digits(ppid as nat)))
}

pub open spec fn prompt_body(esc: Escapes) -> Body {
    Ok(painted_bold(esc.begin@, esc.end@, Paint::Magenta, "$"@))
}

pub open spec fn time_body(esc: Escapes, time: String) -> Body {
    Ok(painted(esc.begin@, esc.end@, Paint::Magenta, time@))
}

pub open spec fn tty_body(esc: Escapes, tty: Result<String, String>) -> Body {
    match tty {
        Err(m) => Err(m@),
        Ok(t) => Ok(painted(esc.begin@, esc.end@, Paint::Yellow, t@)),
    }
}

/// What `field` shows, given the exit status and the values read.
#[verifier::opaque]
pub open spec fn field_body(esc: Escapes, exit: Option<i32>, src: Sources, field: Field) -> Body {
    match field {
        Field::ExitCode => exit_body(esc, exit),
        Field::Git => git_body(esc, src.git),
        Field::Network => network_body(src.received@, src.transmitted@),
        Field::Platform => platform_body(esc, src.platform),
        Field::Ppid => ppid_body(esc, src.ppid),
        Field::Prompt => prompt_body(esc),
        Field::Pwd => pwd_body(esc, src.cwd, src.home),
        Field::Time => time_body(esc, src.time),
        Field::Tty => tty_body(esc, src.tty),
        Field::Whoami => whoami_body(esc, src.whoami),
    }
}

/// The text of `field`, or the message of its failure.
pub fn field_text(esc: &Escapes, exit: Option<i32>, src: &Sources, field: Field) -> (r: Result<String, String>)
    ensures
        body_view(r) == field_body(*esc, exit, *src, field),
{
    reveal(field_body);
    match field {
        Field::ExitCode => exit_text(esc, exit),
        Field::Git => git_text(esc, &src.git),
        Field::Network => network_text(&src.received, &src.transmitted),
        Field::Platform => platform_text(esc, &src.platform),
        Field::Ppid => {
            let t = unsigned_text(src.ppid as u64);
            Ok(esc.paint(Paint::Yellow, t.as_str()))
        },
        Field::Prompt => Ok(esc.paint_bold(Paint::Magenta, "$")),
        Field::Pwd => pwd_text(esc, &src.cwd, &src.home),
        Field::Time => Ok(esc.paint(Paint::Magenta, src.time.as_str())),
        Field::Tty => match &src.tty {
            Err(m) => Err(m.clone()),
            Ok(t) => Ok(esc.paint(Paint::Yellow, t.as_str())),
        },
        Field::Whoami => whoami_text(esc, &src.whoami),
    }
}

} // verus!
