use std::collections::HashSet;

use zond::commands::{discover_report, report, scan_report, Report};
use zond::host::Host;
use zond::input::{is_abort_key, Key};
use zond::insights::{get_shuffled_insights, merge_by_coins};
use zond::layout::{NoResults, Print, PrintError, Summary};
use zond::logging::{
    event_symbol, field_role, is_print_target, is_raw_field, is_status_field, should_emit, to_crlf,
    verbosity_from_i64, verbosity_from_u64, FieldRole, Level,
};
use zond::net::{IpAddr, Ipv6Kind, MacAddr};
use zond::netfmt::{print_interface, print_network_interfaces, to_print_map_net, IpNetwork, NetworkInterface};
use zond::spinner::{discover_status, scan_status, spinner_frame, tip_style, Frame, CYCLE_MS, STATUS_MS};
use zond::style::{tone, Content, Secret, Span, Style, Tone};

fn text(l: &[Span]) -> String {
    let mut s = String::new();
    for sp in l {
        match &sp.content {
            Content::Text(t) => s.push_str(t),
            Content::Redacted(_) => s.push_str("<redacted>"),
        }
    }
    s
}

fn bare(last: u8) -> Host {
    let ip = IpAddr::V4([10, 0, 0, last]);
    Host { primary_ip: ip, ips: vec![ip], mac: None, vendor: None, hostname: None, rtt: None, ports: Vec::new() }
}

#[test]
fn network_details_show_address_and_prefix() {
    let nets = vec![
        IpNetwork { ip: IpAddr::V4([192, 168, 1, 2]), prefix: 24 },
        IpNetwork { ip: IpAddr::V6([0xfe80, 0, 0, 0, 0, 0, 0, 1]), prefix: 64 },
        IpNetwork { ip: IpAddr::V6([0x2001, 0xdb8, 0, 0, 0, 0, 0, 1]), prefix: 48 },
        IpNetwork { ip: IpAddr::V6([0xfd00, 0, 0, 0, 0, 0, 0, 1]), prefix: 8 },
        IpNetwork { ip: IpAddr::V6([0, 0, 0, 0, 0, 0, 0, 1]), prefix: 128 },
    ];
    let details = to_print_map_net(&nets, false);
    let pairs: Vec<(String, String)> = details.iter().map(|d| (d.key.clone(), text(&d.value))).collect();
    assert_eq!(
        pairs,
        vec![
            ("IPv4".to_string(), "192.168.1.2/24".to_string()),
            ("LLA".to_string(), "fe80::1/64".to_string()),
            ("GUA".to_string(), "2001:db8::1/48".to_string()),
            ("ULA".to_string(), "fd00::1/8".to_string()),
            ("IPv6".to_string(), "::1/128".to_string()),
        ]
    );
    assert_eq!(details[0].value[0].style, tone(Tone::Ipv4Addr));
    assert_eq!(details[0].value[2].style, tone(Tone::Ipv4Prefix));
    assert_eq!(details[1].value[2].style, tone(Tone::Ipv6Prefix));
}

#[test]
fn interface_block() {
    let iface = NetworkInterface {
        name: "eth0".to_string(),
        ips: vec![IpNetwork { ip: IpAddr::V4([192, 168, 1, 2]), prefix: 24 }],
        mac: Some(MacAddr { octets: [0xaa, 0xbb, 0xcc, 0x00, 0x11, 0x22] }),
    };
    let texts: Vec<String> = print_interface(&iface, 1, false).iter().map(|l| text(l)).collect();
    assert_eq!(texts, vec!["[1] eth0", " ├─ IPv4....: 192.168.1.2/24", " └─ MAC.....: aa:bb:cc:00:11:22"]);
}

#[test]
fn interfaces_are_separated_by_blank_lines() {
    let a = NetworkInterface { name: "lo".to_string(), ips: Vec::new(), mac: None };
    let b = NetworkInterface { name: "wlan0".to_string(), ips: Vec::new(), mac: None };
    let blocks = print_network_interfaces(&vec![a, b], false);
    assert_eq!(blocks.len(), 2);
    assert_eq!(blocks[0].len(), 2);
    assert_eq!(text(&blocks[0][0]), "[0] lo");
    assert!(blocks[0][1].is_empty());
    assert_eq!(blocks[1].len(), 1);
    assert_eq!(text(&blocks[1][0]), "[1] wlan0");
}

#[test]
fn log_targets_and_fields() {
    assert!(is_print_target("zond::print"));
    assert!(!is_print_target("zond::printer"));
    assert!(!is_print_target("zond"));
    assert!(is_status_field("status"));
    assert!(!is_status_field("message"));
    assert!(is_raw_field("raw_msg"));
    assert!(!is_raw_field("raw"));
    assert_eq!(field_role("status"), FieldRole::Hidden);
    assert_eq!(field_role("verbosity"), FieldRole::Hidden);
    assert_eq!(field_role("message"), FieldRole::Message);
    assert_eq!(field_role("port"), FieldRole::Named);
}

#[test]
fn verbosity_fields_are_read_from_integers() {
    assert_eq!(verbosity_from_u64("verbosity", 2), Some(2));
    assert_eq!(verbosity_from_u64("other", 2), None);
    assert_eq!(verbosity_from_i64("verbosity", 1), Some(1));
    assert_eq!(verbosity_from_i64("verbosity", 258), Some(2));
    assert_eq!(verbosity_from_i64("level", 1), None);
}

#[test]
fn events_above_the_verbosity_are_dropped() {
    assert!(should_emit(None, 0));
    assert!(should_emit(Some(1), 1));
    assert!(!should_emit(Some(2), 1));
    assert!(should_emit(Some(0), 0));
}

#[test]
fn event_symbols_by_level() {
    assert_eq!(event_symbol(Level::Trace, None).0, "[ ]");
    assert!(event_symbol(Level::Trace, None).1.dimmed);
    assert_eq!(event_symbol(Level::Debug, None), ("[?]", tone(Tone::Blue)));
    assert_eq!(
        event_symbol(Level::Info, None),
        ("[+]", Style { tone: Tone::Green, bold: true, italic: false, dimmed: false })
    );
    assert_eq!(
        event_symbol(Level::Info, Some("info")),
        ("[»]", Style { tone: Tone::Cyan, bold: true, italic: false, dimmed: false })
    );
    assert_eq!(event_symbol(Level::Info, Some("success")).0, "[+]");
    assert_eq!(event_symbol(Level::Warn, None).0, "[*]");
    assert_eq!(event_symbol(Level::Error, None).0, "[-]");
    assert_eq!(event_symbol(Level::Error, None).1.tone, Tone::Red);
}

#[test]
fn line_feeds_become_crlf() {
    assert_eq!(to_crlf("a\nb"), "a\r\nb");
    assert_eq!(to_crlf("\n\n"), "\r\n\r\n");
    assert_eq!(to_crlf("plain"), "plain");
    assert_eq!(to_crlf(""), "");
}

#[test]
fn spinner_shows_status_early_in_each_cycle() {
    assert_eq!((CYCLE_MS, STATUS_MS), (5000, 2000));
    assert_eq!(spinner_frame(1500, true, 15), Frame::Status);
    assert_eq!(spinner_frame(2500, true, 15), Frame::Tip(0));
    assert_eq!(spinner_frame(5000, true, 15), Frame::Status);
    assert_eq!(spinner_frame(7000, true, 15), Frame::Tip(1));
    assert_eq!(spinner_frame(1500, false, 15), Frame::Tip(0));
}

#[test]
fn spinner_tips_rotate_and_wrap() {
    assert_eq!(spinner_frame(80000, false, 15), Frame::Tip(1));
    assert_eq!(spinner_frame(74999, false, 15), Frame::Tip(14));
    assert_eq!(spinner_frame(12345, false, 1), Frame::Tip(0));
}

#[test]
fn status_lines_count_hosts() {
    assert_eq!(text(&discover_status(1)), "Identified 1 host so far...");
    assert_eq!(text(&discover_status(0)), "Identified 0 hosts so far...");
    assert_eq!(text(&scan_status(12)), "Scanned 12 hosts so far...");
    let l = scan_status(1);
    assert_eq!(text(&l), "Scanned 1 host so far...");
    assert_eq!(l[1].style, Style { tone: Tone::Green, bold: true, italic: true, dimmed: false });
    assert_eq!(l[0].style, tip_style());
    assert!(tip_style().italic);
}

#[test]
fn abort_keys() {
    assert!(is_abort_key(Key::Char('q'), false));
    assert!(is_abort_key(Key::Char('Q'), true));
    assert!(is_abort_key(Key::Esc, false));
    assert!(is_abort_key(Key::Char('c'), true));
    assert!(!is_abort_key(Key::Char('c'), false));
    assert!(!is_abort_key(Key::Char('x'), true));
    assert!(!is_abort_key(Key::Other, true));
}

#[test]
fn insights_hold_every_message_once() {
    let v = get_shuffled_insights();
    assert_eq!(v.len(), 15);
    let distinct: HashSet<&str> = v.iter().copied().collect();
    assert_eq!(distinct.len(), 15);
    assert!(distinct.contains("Press 'q' to stop and print results"));
    assert!(distinct.contains("The 'S' in IoT stands for Security"));
    assert!(distinct.contains("RFC 1149: Standard for Avian IP (actual pigeons)"));
}

#[test]
fn insights_keep_each_pool_in_its_shuffled_order() {
    let tips = [
        "Press 'q' to stop and print results",
        "Running with root enables faster raw socket scanning",
        "Ranges (e.g. 5-11ms) show min/max RTT latency",
        "Timings with ~ are averages of consistent RTT results",
        "High RTT (500ms+) on local scans suggests mobile/IoT",
        "The '--redact' flag is your friend for output sharing",
    ];
    for _ in 0..20 {
        let v = get_shuffled_insights();
        let n_tips = v.iter().filter(|m| tips.contains(m)).count();
        assert_eq!(n_tips, 6);
    }
}

#[test]
fn an_empty_result_reports_no_results() {
    let p = Print { no_banner: false, q_level: 0, redact: false };
    match discover_report(&p, Vec::new(), "0.10s") {
        Ok(Report::NoResults(NoResults::Banner(_))) => {}
        _ => panic!("expected the no-results banner"),
    }
    let p = Print { no_banner: false, q_level: 2, redact: false };
    match scan_report(&p, Vec::new(), "0.10s") {
        Ok(Report::NoResults(NoResults::Logged(m))) => assert_eq!(m, "Scan completed: 0 devices responded."),
        _ => panic!("expected the no-results log"),
    }
}

#[test]
fn raw_listing_fails_the_report() {
    let p = Print { no_banner: false, q_level: 2, redact: false };
    match report(&p, vec![bare(1)], "Network Discovery", "1.00s") {
        Err(e) => assert_eq!(e, PrintError::RawListingUnimplemented),
        Ok(_) => panic!("expected an error"),
    }
}

#[test]
fn report_sorts_hosts_and_summarizes() {
    let p = Print { no_banner: false, q_level: 0, redact: false };
    match discover_report(&p, vec![bare(9), bare(2), bare(5)], "2.34s") {
        Ok(Report::Hosts { header, hosts, blocks, summary }) => {
            match &header[1].content {
                Content::Text(t) => assert_eq!(t, "⟦ NETWORK DISCOVERY ⟧"),
                _ => panic!("header"),
            }
            let order: Vec<IpAddr> = hosts.iter().map(|h| h.primary_ip).collect();
            assert_eq!(order, vec![IpAddr::V4([10, 0, 0, 2]), IpAddr::V4([10, 0, 0, 5]), IpAddr::V4([10, 0, 0, 9])]);
            assert_eq!(blocks.len(), 3);
            assert!(text(&blocks[0][0]).starts_with("[0] 10.0.0.2"));
            assert!(text(&blocks[2][0]).starts_with("[2] 10.0.0.9"));
            match summary {
                Summary::Centered { line, .. } => {
                    assert_eq!(text(&line).trim(), "Discovery Complete: 3 active hosts identified in 2.34s")
                }
                _ => panic!("expected a centered summary"),
            }
        }
        _ => panic!("expected hosts"),
    }
}

#[test]
fn quiet_scan_report_has_no_header() {
    let p = Print { no_banner: false, q_level: 1, redact: false };
    match scan_report(&p, vec![bare(1)], "0.01s") {
        Ok(Report::Hosts { header, summary, .. }) => {
            assert!(header.is_empty());
            assert!(matches!(summary, Summary::Logged(_)));
        }
        _ => panic!("expected hosts"),
    }
}

const TIPS: [&str; 6] = [
    "Press 'q' to stop and print results",
    "Running with root enables faster raw socket scanning",
    "Ranges (e.g. 5-11ms) show min/max RTT latency",
    "Timings with ~ are averages of consistent RTT results",
    "High RTT (500ms+) on local scans suggests mobile/IoT",
    "The '--redact' flag is your friend for output sharing",
];

#[test]
fn insights_shuffle_the_tips() {
    let canonical: Vec<&str> = TIPS.to_vec();
    let shuffled_some_run = (0..30).any(|_| {
        let v = get_shuffled_insights();
        let tips: Vec<&str> = v.into_iter().filter(|m| TIPS.contains(m)).collect();
        tips != canonical
    });
    assert!(shuffled_some_run);
}

#[test]
fn insights_mix_tips_and_other_messages() {
    let mixed_some_run = (0..30).any(|_| {
        let v = get_shuffled_insights();
        !v[..6].iter().all(|m| TIPS.contains(m))
    });
    assert!(mixed_some_run);
}

#[test]
fn redacted_interfaces_hide_the_mac_and_classified_ipv6() {
    let mac = MacAddr { octets: [0xaa, 0xbb, 0xcc, 0x00, 0x11, 0x22] };
    let iface = NetworkInterface {
        name: "eth0".to_string(),
        ips: vec![
            IpNetwork { ip: IpAddr::V4([192, 168, 1, 2]), prefix: 24 },
            IpNetwork { ip: IpAddr::V6([0x2001, 0xdb8, 0, 0, 0, 0, 0, 1]), prefix: 64 },
            IpNetwork { ip: IpAddr::V6([0, 0, 0, 0, 0, 0, 0, 1]), prefix: 128 },
        ],
        mac: Some(mac),
    };
    let lines = print_interface(&iface, 0, true);
    assert_eq!(lines.len(), 5);
    assert_eq!(text(&lines[1]), " ├─ IPv4....: 192.168.1.2/24");
    assert_eq!(
        lines[2][7].content,
        Content::Redacted(Secret::Ipv6(Ipv6Kind::GlobalUnicast, [0x2001, 0xdb8, 0, 0, 0, 0, 0, 1]))
    );
    assert_eq!(text(&lines[2][8..]), "/64");
    assert_eq!(text(&lines[3]), " ├─ IPv6....: ::1/128");
    assert_eq!(lines[4][7].content, Content::Redacted(Secret::Mac(mac)));
    let blocks = print_network_interfaces(&vec![iface], true);
    assert_eq!(blocks[0][4][7].content, Content::Redacted(Secret::Mac(mac)));
}

#[test]
fn merge_follows_the_coins_while_both_lists_last() {
    let a = vec!["a1", "a2", "a3"];
    let b = vec!["b1", "b2"];
    assert_eq!(merge_by_coins(a.clone(), b.clone(), &vec![true, false, true, true]), vec!["a1", "b1", "a2", "a3", "b2"]);
    assert_eq!(merge_by_coins(a.clone(), b.clone(), &vec![false, false, true, true]), vec!["b1", "b2", "a1", "a2", "a3"]);
    assert_eq!(merge_by_coins(a.clone(), b.clone(), &vec![true, true, true]), vec!["a1", "a2", "a3", "b1", "b2"]);
}

#[test]
fn merge_without_coins_takes_the_second_list() {
    assert_eq!(merge_by_coins(vec!["a1"], vec!["b1", "b2"], &Vec::new()), vec!["b1", "b2", "a1"]);
    assert_eq!(merge_by_coins(vec!["a1"], Vec::new(), &Vec::new()), vec!["a1"]);
    assert_eq!(merge_by_coins(Vec::new(), Vec::new(), &vec![true]), Vec::<&str>::new());
}
