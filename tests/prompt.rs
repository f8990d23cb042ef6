use shellprompt::fields::{
    exit_text, field_text, git_text, network_text, platform_text, pwd_text, server_ip_text, sum_counts,
    traffic_text, whoami_text, Field, GitReading, Origin, PlatformReading, Sources, WhoamiReading,
};
use shellprompt::number::{parse_port, port_error_text, signed_text, unsigned_text, PortError};
use shellprompt::pass::{print_default, print_pass, Layout};
use shellprompt::style::{str_eq, Escapes, Paint};
use shellprompt::text::{show_dir, split_at_spaces};
use shellprompt::writer::FieldWriter;

fn paint(on: &str, off: &str, t: &str) -> String {
    format!("\x1b[{}m{}\x1b[{}m", on, t, off)
}

fn bold(t: &str) -> String {
    paint("1", "22", t)
}

fn blue_bold(t: &str) -> String {
    bold(&paint("34", "39", t))
}

fn whoami_plain() -> WhoamiReading {
    WhoamiReading { user: "alice".to_string(), host: Some("box".to_string()), origin: Origin::Absent }
}

fn sample_sources() -> Sources {
    Sources {
        whoami: whoami_plain(),
        cwd: Ok("/home/alice/src".to_string()),
        home: Some("/home/alice".to_string()),
        ppid: 4242,
        time: "2024-01-02 03:04:05.678 UTC".to_string(),
        platform: PlatformReading {
            distribution: "debian".to_string(),
            os_version: Some("12".to_string()),
            kernel_release: Ok("6.1.0".to_string()),
            arch: "x86_64".to_string(),
        },
        received: vec![500],
        transmitted: vec![12],
        tty: Ok("/dev/pts/1".to_string()),
        git: GitReading::Head(Some("main".to_string())),
    }
}

fn ok_text(r: Result<String, String>) -> String {
    match r {
        Ok(t) => t,
        Err(m) => panic!("unexpected failure: {}", m),
    }
}

fn err_text(r: Result<String, String>) -> String {
    match r {
        Ok(t) => panic!("unexpected text: {}", t),
        Err(m) => m,
    }
}

#[test]
fn default() {
    let a = print_default(Escapes::none(), Some(0), sample_sources());
    let b = print_default(Escapes::none(), Some(1), sample_sources());
    assert!(a.ends_with(&blue_bold("]> ")));
    assert!(b.ends_with(&blue_bold("]> ")));
}

#[test]
fn exit_status_texts() {
    let e = Escapes::none();
    assert_eq!(ok_text(exit_text(&e, Some(0))), bold(&paint("32", "39", "0")));
    assert_eq!(ok_text(exit_text(&e, Some(1))), bold(&paint("31", "39", "1")));
    assert_eq!(ok_text(exit_text(&e, Some(-42))), bold(&paint("31", "39", "-42")));
    assert_eq!(ok_text(exit_text(&e, Some(i32::MIN))), bold(&paint("31", "39", "-2147483648")));
    assert_eq!(ok_text(exit_text(&e, Some(i32::MAX))), bold(&paint("31", "39", "2147483647")));
    assert_eq!(ok_text(exit_text(&e, None)), "");
}

#[test]
fn decimal_texts() {
    assert_eq!(unsigned_text(0), "0");
    assert_eq!(unsigned_text(10), "10");
    assert_eq!(unsigned_text(u64::MAX), "18446744073709551615");
    assert_eq!(signed_text(-7), "-7");
    assert_eq!(signed_text(305), "305");
}

#[test]
fn port_numbers() {
    assert_eq!(parse_port("22"), Ok(22));
    assert_eq!(parse_port("+22"), Ok(22));
    assert_eq!(parse_port("0022"), Ok(22));
    assert_eq!(parse_port("65535"), Ok(65535));
    assert_eq!(parse_port(""), Err(PortError::Empty));
    assert_eq!(parse_port("+"), Err(PortError::InvalidDigit));
    assert_eq!(parse_port("-1"), Err(PortError::InvalidDigit));
    assert_eq!(parse_port("2a"), Err(PortError::InvalidDigit));
    assert_eq!(parse_port("65536"), Err(PortError::TooLarge));
    assert_eq!(parse_port("70000a"), Err(PortError::TooLarge));
    assert_eq!(port_error_text(PortError::Empty), "cannot parse integer from empty string");
    assert_eq!(port_error_text(PortError::InvalidDigit), "invalid digit found in string");
    assert_eq!(port_error_text(PortError::TooLarge), "number too large to fit in target type");
}

#[test]
fn port_parse_matches_std() {
    for s in ["", "+", "-", "0", "1", "+9", "65535", "65536", "99999", "7x", "x7", "1 2", "٣"] {
        let ours = parse_port(s);
        let std_result = s.parse::<u16>();
        match (ours, std_result) {
            (Ok(a), Ok(b)) => assert_eq!(a, b),
            (Err(e), Err(f)) => assert_eq!(port_error_text(e), f.to_string()),
            (a, b) => panic!("{:?} differs from {:?} on {:?}", a, b, s),
        }
    }
}

#[test]
fn splitting_on_spaces() {
    assert_eq!(split_at_spaces("a b  c"), vec!["a", "b", "", "c"]);
    assert_eq!(split_at_spaces(""), vec![""]);
    assert_eq!(split_at_spaces(" x "), vec!["", "x", ""]);
    assert_eq!(server_ip_text("ignored ignored 10.0.0.5 22 extra"), Some("10.0.0.5".to_string()));
    assert_eq!(server_ip_text("a b"), None);
}

#[test]
fn directories_relative_to_home() {
    assert_eq!(show_dir("/home/alice", Some("/home/alice")), "~");
    assert_eq!(show_dir("/home/alice/src/x", Some("/home/alice")), "~/src/x");
    assert_eq!(show_dir("/home/alicex", Some("/home/alice")), "/home/alicex");
    assert_eq!(show_dir("/home/alice/src", Some("/home/alice/")), "~/src");
    assert_eq!(show_dir("/home/alice", Some("/home/alice/")), "~");
    assert_eq!(show_dir("/home/alice", Some("/home/alice//")), "~");
    assert_eq!(show_dir("/home/alicex", Some("/home/alice/")), "/home/alicex");
    assert_eq!(show_dir("/", Some("/")), "~");
    assert_eq!(show_dir("/usr", Some("//")), "~/usr");
    assert_eq!(show_dir("/usr", Some("/home/alice")), "/usr");
    assert_eq!(show_dir("/usr", Some("/")), "~/usr");
    assert_eq!(show_dir("/usr", None), "/usr");
    assert_eq!(show_dir("/usr", Some("")), "/usr");
}

#[test]
fn shell_markers() {
    let z = Escapes::for_shell(Some("zsh"));
    assert_eq!((z.begin.as_str(), z.end.as_str()), ("%{", "%}"));
    let b = Escapes::for_shell(Some("bash"));
    assert_eq!((b.begin.as_str(), b.end.as_str()), ("\\[", "\\]"));
    let f = Escapes::for_shell(Some("fish"));
    assert_eq!((f.begin.as_str(), f.end.as_str()), ("", ""));
    let n = Escapes::for_shell(None);
    assert_eq!((n.begin.as_str(), n.end.as_str()), ("", ""));
    assert_eq!(z.paint(Paint::Red, "x"), "%{\x1b[31m%}x%{\x1b[39m%}");
    assert_eq!(z.paint_bold(Paint::Cyan, "y"), "%{\x1b[1m%}%{\x1b[36m%}y%{\x1b[39m%}%{\x1b[22m%}");
    assert!(str_eq("abc", "abc"));
    assert!(!str_eq("abc", "abd"));
}

#[test]
fn whoami_without_origin() {
    let t = ok_text(whoami_text(&Escapes::none(), &whoami_plain()));
    assert_eq!(t, paint("36", "39", &format!("{}@{}", bold("alice"), bold("box"))));
    assert!(!t.contains('('));
    let nohost = WhoamiReading { user: "alice".to_string(), host: None, origin: Origin::Absent };
    let t2 = ok_text(whoami_text(&Escapes::none(), &nohost));
    assert_eq!(t2, paint("36", "39", &format!("{}@{}", bold("alice"), bold("???"))));
}

fn with_origin(connection: &str, ip: Result<&str, &str>) -> WhoamiReading {
    WhoamiReading {
        user: "alice".to_string(),
        host: Some("box".to_string()),
        origin: Origin::Present {
            connection: connection.to_string(),
            server_ip: ip.map(String::from).map_err(String::from),
        },
    }
}

#[test]
fn whoami_with_origin() {
    let w = with_origin("ignored ignored 10.0.0.5 22 extra", Ok("10.0.0.5"));
    let t = ok_text(whoami_text(&Escapes::none(), &w));
    let inner = format!("{}@{} (10.0.0.5:22)", bold("alice"), bold("box"));
    assert_eq!(t, paint("36", "39", &inner));
}

#[test]
fn whoami_origin_failures() {
    let e = Escapes::none();
    assert_eq!(err_text(whoami_text(&e, &with_origin("a b 10.0.0.5", Ok("10.0.0.5")))), "Missing server port");
    assert_eq!(err_text(whoami_text(&e, &with_origin("a b", Ok("x")))), "Missing server IP");
    assert_eq!(
        err_text(whoami_text(&e, &with_origin("a b nope 22", Err("invalid IP address syntax")))),
        "invalid IP address syntax"
    );
    assert_eq!(
        err_text(whoami_text(&e, &with_origin("a b 10.0.0.5 port", Ok("10.0.0.5")))),
        "invalid digit found in string"
    );
    let bad = WhoamiReading { user: "a".to_string(), host: None, origin: Origin::NotUnicode };
    assert_eq!(err_text(whoami_text(&e, &bad)), "Invalid UTF-8 for SSH_CONNECTION");
}

#[test]
fn git_texts() {
    let e = Escapes::none();
    assert_eq!(ok_text(git_text(&e, &GitReading::NoRepository)), "");
    assert_eq!(ok_text(git_text(&e, &GitReading::Head(Some("main".to_string())))), paint("33", "39", "main"));
    assert_eq!(ok_text(git_text(&e, &GitReading::Head(None))), paint("33", "39", "<UNKNOWN>"));
    let msg = "trying to get HEAD\n\nCaused by:\n    reference not found";
    assert_eq!(err_text(git_text(&e, &GitReading::HeadFailed(msg.to_string()))), msg);
}

#[test]
fn network_texts() {
    assert_eq!(sum_counts(&vec![1, 2, 3]), 6);
    assert_eq!(sum_counts(&vec![]), 0);
    assert_eq!(sum_counts(&vec![u64::MAX, 5]), u64::MAX);
    assert_eq!(ok_text(network_text(&vec![400, 100], &vec![12])), "↑500 B↓12 B");
    assert_eq!(ok_text(network_text(&vec![1000, 500], &vec![0])), "↑1.5 KB↓0 B");
    assert_eq!(traffic_text("1 B", "2 KB"), "↑1 B↓2 KB");
    assert_eq!(traffic_text("", ""), "↑↓");
}

#[test]
fn platform_texts() {
    let e = Escapes::none();
    let mut p = sample_sources().platform;
    assert_eq!(ok_text(platform_text(&e, &p)), paint("31", "39", "debian (12)/6.1.0/x86_64"));
    p.os_version = None;
    assert_eq!(ok_text(platform_text(&e, &p)), paint("31", "39", "6.1.0/x86_64"));
    p.kernel_release = Err("EFAULT: Bad address".to_string());
    assert_eq!(err_text(platform_text(&e, &p)), "EFAULT: Bad address");
}

#[test]
fn simple_field_texts() {
    let e = Escapes::none();
    let s = sample_sources();
    assert_eq!(ok_text(field_text(&e, None, &s, Field::Ppid)), paint("33", "39", "4242"));
    assert_eq!(ok_text(field_text(&e, None, &s, Field::Prompt)), bold(&paint("35", "39", "$")));
    assert_eq!(ok_text(field_text(&e, None, &s, Field::Time)), paint("35", "39", "2024-01-02 03:04:05.678 UTC"));
    assert_eq!(ok_text(field_text(&e, None, &s, Field::Tty)), paint("33", "39", "/dev/pts/1"));
    assert_eq!(ok_text(field_text(&e, None, &s, Field::Pwd)), bold(&paint("33", "39", "~/src")));
    assert_eq!(
        ok_text(pwd_text(&e, &Ok("/tmp".to_string()), &Some("/home/alice".to_string()))),
        bold(&paint("33", "39", "/tmp"))
    );
    assert_eq!(err_text(pwd_text(&e, &Err("gone".to_string()), &None)), "gone");
    let mut t = sample_sources();
    t.tty = Err("ENOTTY: Inappropriate ioctl for device".to_string());
    assert_eq!(err_text(field_text(&e, None, &t, Field::Tty)), "ENOTTY: Inappropriate ioctl for device");
}

#[test]
fn writer_frames_and_separators() {
    let mut w = FieldWriter::new(Escapes::none(), Some(3), sample_sources());
    w.print_section(Field::Ppid);
    w.print_section(Field::Ppid);
    w.print_section(Field::Ppid);
    w.print_line();
    w.print_section(Field::ExitCode);
    w.print_section(Field::Prompt);
    assert!(!w.has_errors());
    let out = w.output();
    let ppid = paint("33", "39", "4242");
    let expected = format!(
        "{}{}{} - {}{}{}-{}{}{}\n{}{}{}-{}{}{}",
        blue_bold("┌─["), ppid, blue_bold("]"),
        blue_bold("["), ppid, blue_bold("]"),
        blue_bold("["), ppid, blue_bold("]"),
        blue_bold("└─["), bold(&paint("31", "39", "3")), blue_bold("]"),
        blue_bold("["), bold(&paint("35", "39", "$")), blue_bold("]> ")
    );
    assert_eq!(out, expected);
}

#[test]
fn writer_gathers_errors() {
    let mut s = sample_sources();
    s.tty = Err("first".to_string());
    s.cwd = Err("second".to_string());
    let mut w = FieldWriter::new(Escapes::none(), None, s);
    w.print_section(Field::Tty);
    assert!(w.has_errors());
    w.print_section(Field::Pwd);
    w.print_errors();
    let out = w.output();
    let expected = format!(
        "{}{} - {}{}{}",
        blue_bold("┌─["), blue_bold("]"), blue_bold("["), blue_bold("]"),
        bold(&paint("31", "39", "first\nsecond"))
    );
    assert_eq!(out, expected);
}

#[test]
fn success_with_branch() {
    let out = print_default(Escapes::none(), Some(0), sample_sources());
    let row2 = format!(
        "\n{}{}{}-{}{}{}-{}{}{}",
        blue_bold("└─["), bold(&paint("32", "39", "0")), blue_bold("]"),
        blue_bold("["), paint("33", "39", "main"), blue_bold("]"),
        blue_bold("["), bold(&paint("35", "39", "$")), blue_bold("]> ")
    );
    assert!(out.ends_with(&row2));
    assert_eq!(out.matches('\n').count(), 1);
}

#[test]
fn ssh_origin_and_failure_status() {
    let mut s = sample_sources();
    s.whoami = with_origin("ignored ignored 10.0.0.5 22 extra", Ok("10.0.0.5"));
    let out = print_default(Escapes::none(), Some(1), s);
    let who = paint("36", "39", &format!("{}@{} (10.0.0.5:22)", bold("alice"), bold("box")));
    assert!(out.starts_with(&format!("{}{}{}", blue_bold("┌─["), who, blue_bold("]"))));
    let code = format!("{}{}{}", blue_bold("└─["), bold(&paint("31", "39", "1")), blue_bold("]"));
    assert!(out.contains(&code));
}

#[test]
fn outside_repository() {
    let mut s = sample_sources();
    s.git = GitReading::NoRepository;
    let out = print_default(Escapes::none(), Some(0), s);
    let tail = format!("-{}{}-", blue_bold("["), blue_bold("]"));
    assert!(out.contains(&tail));
    assert_eq!(out.matches('\n').count(), 1);
}

#[test]
fn missing_port_still_prompts() {
    let mut s = sample_sources();
    s.whoami = with_origin("a b 10.0.0.5", Ok("10.0.0.5"));
    let out = print_default(Escapes::none(), Some(0), s);
    assert!(out.starts_with(&format!("{}{}", blue_bold("┌─["), blue_bold("]"))));
    let block = format!("\n{}\n", bold(&paint("31", "39", "Missing server port")));
    assert!(out.contains(&block));
    assert_eq!(out.matches("Missing server port").count(), 1);
    assert!(out.ends_with(&format!("{}{}{}", blue_bold("└─["), bold(&paint("35", "39", "$")), blue_bold("]> "))));
    assert_eq!(out.matches('\n').count(), 3);
}

#[test]
fn several_failures_one_block() {
    let mut s = sample_sources();
    s.tty = Err("t".to_string());
    s.cwd = Err("c".to_string());
    s.git = GitReading::HeadFailed("h".to_string());
    let layout = Layout {
        first_row: vec![Field::Pwd, Field::Tty],
        second_row: vec![Field::Git],
    };
    let out = print_pass(&layout, Escapes::none(), None, s);
    let block = bold(&paint("31", "39", "c\nt\nh"));
    assert_eq!(out.matches(&block).count(), 1);
    assert!(out.ends_with(&format!("\n{}\n{}{}{}", block, blue_bold("└─["), bold(&paint("35", "39", "$")), blue_bold("]> "))));
}

#[test]
fn line_breaks_follow_fields() {
    let out = print_default(Escapes::none(), None, sample_sources());
    let rows: Vec<&str> = out.split('\n').collect();
    assert_eq!(rows.len(), 2);
    assert!(rows[0].starts_with(&blue_bold("┌─[")));
    assert!(rows[1].starts_with(&blue_bold("└─[")));
    assert_eq!(rows[0].matches(" - ").count(), 1);
    assert_eq!(out.matches(" - ").count(), 1);
    assert_eq!(rows[0].matches(&format!("]{}-{}", "\x1b[39m\x1b[22m", "\x1b[1m")).count(), 4);
}

#[test]
fn opening_glyph_ignores_field() {
    let layout = Layout { first_row: vec![Field::Prompt], second_row: vec![Field::Time, Field::Ppid] };
    let out = print_pass(&layout, Escapes::none(), None, sample_sources());
    assert!(out.starts_with(&format!("{}{}{}", blue_bold("┌─["), bold(&paint("35", "39", "$")), blue_bold("]> "))));
    assert!(out.contains(&format!("\n{}{}", blue_bold("└─["), paint("35", "39", "2024-01-02 03:04:05.678 UTC"))));
}

#[test]
fn first_separator_of_pass_is_wide() {
    let layout = Layout { first_row: vec![Field::Ppid], second_row: vec![Field::Ppid, Field::Ppid, Field::Ppid] };
    let out = print_pass(&layout, Escapes::none(), None, sample_sources());
    let ppid = paint("33", "39", "4242");
    let seg = format!("{}{}{}", blue_bold("["), ppid, blue_bold("]"));
    let row2 = format!("\n{}{}{} - {}-{}-", blue_bold("└─["), ppid, blue_bold("]"), seg, seg);
    assert!(out.contains(&row2));
    assert_eq!(out.matches(" - ").count(), 1);
}
