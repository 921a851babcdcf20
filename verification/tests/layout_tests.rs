use zond::cli::Config;
use zond::host::Host;
use zond::layout::{
    as_tree, centerln, display_version, divider, format_centered, one_span, tree_head, Detail, NoResults,
    Print, PrintError, Summary, TOTAL_WIDTH,
};
use zond::net::IpAddr;
use zond::style::{lit_span, tone, Content, Span, Style, Tone};

fn text(l: &[Span]) -> String {
    let mut s = String::new();
    for sp in l {
        match &sp.content {
            Content::Text(t) => s.push_str(t),
            Content::Redacted(_) => s.push_str("<redacted>"),
        }
    }
    s
}

fn span_str(sp: &Span) -> &str {
    match &sp.content {
        Content::Text(t) => t.as_str(),
        Content::Redacted(_) => panic!("unexpected redacted span"),
    }
}

fn printer(no_banner: bool, q_level: u8, redact: bool) -> Print {
    Print { no_banner, q_level, redact }
}

fn host(last: u8) -> Host {
    Host {
        primary_ip: IpAddr::V4([10, 0, 0, last]),
        ips: vec![IpAddr::V4([10, 0, 0, last])],
        mac: None,
        vendor: None,
        hostname: None,
        rtt: None,
        ports: Vec::new(),
    }
}

#[test]
fn centering_puts_the_extra_fill_on_the_right() {
    assert_eq!(format_centered("abc", "-", 10), "---abc----");
    assert_eq!(format_centered("abcd", "-", 10), "---abcd---");
    assert_eq!(format_centered("", "=", 4), "====");
}

#[test]
fn centering_a_text_wider_than_the_width_adds_nothing() {
    assert_eq!(format_centered("abcdef", "-", 4), "abcdef");
    assert_eq!(format_centered("abcd", "-", 4), "abcd");
}

#[test]
fn divider_spans_the_report_width() {
    assert_eq!(divider(), "═".repeat(TOTAL_WIDTH));
    assert_eq!(TOTAL_WIDTH, 64);
}

#[test]
fn centerln_pads_with_spaces() {
    let line = centerln("hi");
    assert_eq!(line, format!("{}hi{}", " ".repeat(31), " ".repeat(31)));
}

#[test]
fn display_version_keeps_major_and_minor() {
    assert_eq!(display_version("1.4.2"), "1.4");
    assert_eq!(display_version("2"), "2");
    assert_eq!(display_version("0.1.0-beta.3"), "0.1");
    assert_eq!(display_version(""), "");
}

#[test]
fn tree_lines_pad_keys_to_hostname_width() {
    let details = vec![
        Detail { key: "IPv4".to_string(), value: one_span(lit_span("10.0.0.2", tone(Tone::Ipv4Addr))) },
        Detail { key: "Hostname".to_string(), value: one_span(lit_span("router", tone(Tone::Hostname))) },
    ];
    let lines = as_tree(details);
    assert_eq!(lines.len(), 2);
    assert_eq!(text(&lines[0]), " ├─ IPv4....: 10.0.0.2");
    assert_eq!(text(&lines[1]), " └─ Hostname: router");
    assert_eq!(lines[0][1].style, tone(Tone::BrightBlack));
    assert_eq!(lines[0][7].style, tone(Tone::Ipv4Addr));
}

#[test]
fn tree_with_a_long_key_has_no_dots() {
    let details = vec![Detail { key: "Interfaces".to_string(), value: one_span(lit_span("x", tone(Tone::Plain))) }];
    let lines = as_tree(details);
    assert_eq!(text(&lines[0]), " └─ Interfaces: x");
}

#[test]
fn tree_head_shows_index_and_name() {
    let l = tree_head(3, "eth0");
    assert_eq!(text(&l), "[3] eth0");
    assert_eq!(l[1].style, tone(Tone::Accent));
    assert_eq!(l[4].style, tone(Tone::Primary));
}

#[test]
fn print_takes_its_settings_from_the_config() {
    let cfg = Config { no_banner: true, no_dns: false, redact: true, quiet: 1, disable_input: false };
    let p = Print::new(&cfg);
    assert_eq!(p, printer(true, 1, true));
}

#[test]
fn banner_is_hidden_when_quiet_or_disabled() {
    assert!(printer(true, 0, false).banner("1.4.2").is_none());
    assert!(printer(false, 1, false).banner("1.4.2").is_none());
    let l = printer(false, 0, false).banner("1.4.2").unwrap();
    assert_eq!(l.len(), 3);
    assert_eq!(span_str(&l[1]), "⟦ ZOND 1.4 ⟧ ");
    assert_eq!(l[1].style, Style { tone: Tone::BrightGreen, bold: true, italic: false, dimmed: false });
    let left = span_str(&l[0]);
    let right = span_str(&l[2]);
    assert!(left.chars().all(|c| c == '═') && right.chars().all(|c| c == '═'));
    let (nl, nr) = (left.chars().count(), right.chars().count());
    assert!(nl <= nr && nr <= nl + 1);
}

#[test]
fn header_is_upper_case_and_centered() {
    let l = printer(false, 0, false).header("local system");
    assert_eq!(span_str(&l[1]), "⟦ LOCAL SYSTEM ⟧");
    assert_eq!(l[1].style, tone(Tone::BrightGreen));
    assert!(span_str(&l[0]).chars().all(|c| c == '─'));
    assert!(printer(false, 1, false).header("local system").is_empty());
}

#[test]
fn raw_listing_is_refused_only_when_there_are_hosts() {
    let p = printer(false, 2, false);
    assert_eq!(p.hosts(&vec![host(1)]).unwrap_err(), PrintError::RawListingUnimplemented);
    assert_eq!(p.hosts(&Vec::new()).unwrap().len(), 0);
}

#[test]
fn host_blocks_are_separated_by_blank_lines() {
    let p = printer(false, 0, false);
    let blocks = p.hosts(&vec![host(1), host(2)]).unwrap();
    assert_eq!(blocks.len(), 2);
    assert_eq!(blocks[0].len(), 2);
    assert!(blocks[0][1].is_empty());
    assert_eq!(blocks[1].len(), 1);
    assert!(text(&blocks[1][0]).starts_with("[1] 10.0.0.2"));
}

#[test]
fn discovery_summary_is_centered_when_not_quiet() {
    match printer(false, 0, false).discovery_summary(3, "1.25s") {
        Summary::Centered { divider: d, line } => {
            assert_eq!(d, "═".repeat(64));
            assert_eq!(line.len(), 6);
            let msg = "Discovery Complete: 3 active hosts identified in 1.25s";
            assert_eq!(text(&line).trim(), msg);
            assert_eq!(text(&line).chars().count(), 64);
            assert_eq!(line[2].style, Style { tone: Tone::Green, bold: true, italic: false, dimmed: false });
            assert_eq!(line[4].style, Style { tone: Tone::Yellow, bold: true, italic: false, dimmed: false });
        }
        Summary::Logged(_) => panic!("expected a centered summary"),
    }
}

#[test]
fn discovery_summary_is_logged_when_quiet() {
    match printer(false, 1, false).discovery_summary(1, "0.50s") {
        Summary::Logged(msg) => assert_eq!(text(&msg), "Discovery Complete: 1 active hosts identified in 0.50s"),
        Summary::Centered { .. } => panic!("expected a logged summary"),
    }
}

#[test]
fn no_results_shows_the_banner_or_logs_an_error() {
    match printer(false, 0, false).no_results() {
        NoResults::Banner(l) => assert_eq!(span_str(&l[1]), "⟦ ZERO HOSTS DETECTED ⟧"),
        NoResults::Logged(_) => panic!("expected the banner"),
    }
    for p in [printer(true, 0, false), printer(false, 1, false)] {
        match p.no_results() {
            NoResults::Logged(m) => assert_eq!(m, "Scan completed: 0 devices responded."),
            NoResults::Banner(_) => panic!("expected a log"),
        }
    }
}

#[test]
fn end_of_program_line() {
    let sp = printer(false, 0, false).end_of_program().unwrap();
    assert_eq!(span_str(&sp), "═".repeat(64));
    assert_eq!(sp.style, tone(Tone::Separator));
    assert!(printer(false, 1, false).end_of_program().is_none());
}

#[test]
fn centered_ascii_text_is_as_wide_as_the_total() {
    for (text, total) in [("", 64usize), ("abc", 10), ("hello world", 64), ("toolong", 4)] {
        let r = format_centered(text, "-", total);
        assert_eq!(r.len(), total.max(text.len()));
    }
    assert_eq!(centerln("Discovery Complete").len(), 64);
}
