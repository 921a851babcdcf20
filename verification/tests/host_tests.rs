use zond::format::{hostname_to_detail, ip_to_detail, ipv6_to_type_str, is_global_unicast, mac_to_detail, vendor_to_detail};
use zond::host::{print_host_head, print_services, rtt_to_string, sort_hosts, Host, Port, PortState, Protocol, Rtt};
use zond::net::{IpAddr, Ipv6Kind, MacAddr};
use zond::style::{tone, Content, Secret, Span, Tone};

fn text(l: &[Span]) -> String {
    let mut s = String::new();
    for sp in l {
        match &sp.content {
            Content::Text(t) => s.push_str(t),
            Content::Redacted(_) => s.push_str("<redacted>"),
        }
    }
    s
}

const MS: u128 = 1_000_000;

fn bare(primary: IpAddr) -> Host {
    Host { primary_ip: primary, ips: vec![primary], mac: None, vendor: None, hostname: None, rtt: None, ports: Vec::new() }
}

fn with_rtt(min: u128, max: u128, avg: u128, tol: u128) -> Host {
    let mut h = bare(IpAddr::V4([10, 0, 0, 1]));
    h.rtt = Some(Rtt { min_ns: min, max_ns: max, avg_ns: avg, tolerance_ns: tol });
    h
}

fn port(number: u16, protocol: Protocol, state: PortState, name: Option<&str>) -> Port {
    Port { number, protocol, state, service_name: name.map(|s| s.to_string()) }
}

#[test]
fn rtt_text_is_empty_without_measurements() {
    assert_eq!(rtt_to_string(&bare(IpAddr::V4([10, 0, 0, 1]))), "");
}

#[test]
fn rtt_text_shows_a_single_value_when_min_equals_max() {
    assert_eq!(rtt_to_string(&with_rtt(12 * MS + 345_678, 12 * MS + 345_678, 12 * MS, 2 * MS)), "⌛ 12ms");
}

#[test]
fn rtt_text_shows_the_average_for_a_small_spread() {
    assert_eq!(rtt_to_string(&with_rtt(10 * MS, 11 * MS, 10 * MS + MS / 2, 2 * MS)), "⌛ ~10ms");
}

#[test]
fn rtt_text_shows_the_range_for_a_wide_spread() {
    assert_eq!(rtt_to_string(&with_rtt(10 * MS, 50 * MS, 30 * MS, 2 * MS)), "⌛ 10ms - 50ms");
    // a spread equal to the tolerance is shown as a range
    assert_eq!(rtt_to_string(&with_rtt(10 * MS, 12 * MS, 11 * MS, 2 * MS)), "⌛ 10ms - 12ms");
}

#[test]
fn host_head_aligns_the_rtt_to_the_report_width() {
    let l = print_host_head(0, &bare(IpAddr::V4([192, 168, 1, 10])));
    assert_eq!(l.len(), 7);
    assert_eq!(text(&l), format!("[0] 192.168.1.10{}{}", " ".repeat(27), " ".repeat(20)));
    let l = print_host_head(7, &with_rtt(5 * MS, 5 * MS, 5 * MS, 2 * MS));
    // "[7] 10.0.0.1" is 12 columns, the rtt block 20, one column is kept free
    assert_eq!(text(&l), format!("[7] 10.0.0.1{}{}⌛ 5ms", " ".repeat(31), " ".repeat(14)));
    assert_eq!(l[1].style, tone(Tone::Accent));
    assert_eq!(l[4].style, tone(Tone::Primary));
    assert_eq!(l[6].style, tone(Tone::Secondary));
}

#[test]
fn services_list_counts_and_states() {
    let ports = vec![
        port(22, Protocol::Tcp, PortState::Open, Some("ssh")),
        port(80, Protocol::Tcp, PortState::Filtered, None),
        port(53, Protocol::Udp, PortState::OpenFiltered, Some("dns")),
        port(443, Protocol::Tcp, PortState::Closed, Some("https")),
        port(9, Protocol::Sctp, PortState::Unknown, None),
    ];
    let lines = print_services(&ports);
    assert_eq!(lines.len(), 6);
    assert_eq!(text(&lines[0]), " └─ SERVICES..: 1 OPEN  /  2 FILTERED");
    assert_eq!(text(&lines[1]), "      ├─ 22/tcp    [ OPEN    ]  ssh");
    assert_eq!(text(&lines[2]), "      ├─ 80/tcp    [ FILTERED ]  ???");
    assert_eq!(text(&lines[3]), "      ├─ 53/udp    [ OPEN|FIL ]  dns");
    assert_eq!(text(&lines[4]), "      ├─ 443/tcp   [ CLOSED  ]  https");
    assert_eq!(text(&lines[5]), "      └─ 9/sctp    [ UNKNOWN ]  ???");
    assert_eq!(lines[1][6].style, tone(Tone::Green));
    assert_eq!(lines[4][6].style, tone(Tone::Red));
}

#[test]
fn services_with_nothing_open_say_all_closed() {
    let lines = print_services(&vec![port(23, Protocol::Tcp, PortState::Closed, None)]);
    assert_eq!(text(&lines[0]), " └─ SERVICES..: ALL CHECKS CLOSED");
    assert!(lines[0][7].style.dimmed);
    let lines = print_services(&vec![port(23, Protocol::Tcp, PortState::Filtered, None)]);
    assert_eq!(text(&lines[0]), " └─ SERVICES..: 1 FILTERED");
    let lines = print_services(&vec![port(65535, Protocol::Udp, PortState::Open, None)]);
    assert_eq!(text(&lines[0]), " └─ SERVICES..: 1 OPEN");
    assert_eq!(text(&lines[1]), "      └─ 65535/udp [ OPEN    ]  ???");
}

fn full_host() -> Host {
    let primary = IpAddr::V4([192, 168, 1, 1]);
    Host {
        primary_ip: primary,
        ips: vec![primary, IpAddr::V4([10, 0, 0, 2]), IpAddr::V6([0xfe80, 0, 0, 0, 0, 0, 0, 1]), IpAddr::V6([0, 0, 0, 0, 0, 0, 0, 1])],
        mac: Some(MacAddr { octets: [0x00, 0x1a, 0x2b, 0x3c, 0x4d, 0x5e] }),
        vendor: Some("Acme".to_string()),
        hostname: Some("router".to_string()),
        rtt: None,
        ports: vec![port(22, Protocol::Tcp, PortState::Open, Some("ssh"))],
    }
}

#[test]
fn host_block_lists_details_then_services() {
    let lines = full_host().print(2, false);
    assert_eq!(lines.len(), 1 + 6 + 2);
    assert!(text(&lines[0]).starts_with("[2] 192.168.1.1 "));
    assert_eq!(text(&lines[1]), " ├─ IPv4....: 10.0.0.2");
    assert_eq!(text(&lines[2]), " ├─ LLA.....: fe80::1");
    assert_eq!(text(&lines[3]), " ├─ IPv6....: ::1");
    assert_eq!(text(&lines[4]), " ├─ MAC.....: 00:1a:2b:3c:4d:5e");
    assert_eq!(text(&lines[5]), " ├─ Vendor..: Acme");
    assert_eq!(text(&lines[6]), " └─ Hostname: router");
    assert_eq!(text(&lines[7]), " └─ SERVICES..: 1 OPEN");
    assert_eq!(text(&lines[8]), "      └─ 22/tcp    [ OPEN    ]  ssh");
}

#[test]
fn redaction_hides_macs_host_names_and_classified_ipv6() {
    let h = full_host();
    let lines = h.print(0, true);
    assert_eq!(lines[1][7].content, Content::Text("10.0.0.2".to_string()));
    assert_eq!(lines[2][7].content, Content::Redacted(Secret::Ipv6(Ipv6Kind::LinkLocal, [0xfe80, 0, 0, 0, 0, 0, 0, 1])));
    assert_eq!(lines[3][7].content, Content::Text("::1".to_string()));
    assert_eq!(lines[4][7].content, Content::Redacted(Secret::Mac(h.mac.unwrap())));
    assert_eq!(lines[5][7].content, Content::Text("Acme".to_string()));
    assert_eq!(lines[6][7].content, Content::Redacted(Secret::Hostname("router".to_string())));
    assert_eq!(lines[6][7].style, tone(Tone::Hostname));
}

#[test]
fn the_primary_address_is_not_repeated_among_the_details() {
    let h = full_host();
    let details = ip_to_detail(&h, false);
    assert_eq!(details.len(), 3);
    assert!(details.iter().all(|d| text(&d.value) != "192.168.1.1"));
    assert_eq!(details[0].key, "IPv4");
    assert_eq!(details[1].key, "LLA");
}

#[test]
fn detail_helpers() {
    assert!(hostname_to_detail(None, false).is_none());
    let d = hostname_to_detail(Some("nas"), false).unwrap();
    assert_eq!((d.key.as_str(), text(&d.value)), ("Hostname", "nas".to_string()));
    assert!(mac_to_detail(None, true).is_none());
    let d = mac_to_detail(Some(MacAddr { octets: [1, 2, 3, 4, 5, 6] }), false).unwrap();
    assert_eq!((d.key.as_str(), text(&d.value)), ("MAC", "01:02:03:04:05:06".to_string()));
    assert!(vendor_to_detail(None).is_none());
    let d = vendor_to_detail(Some("Intel")).unwrap();
    assert_eq!((d.key.as_str(), text(&d.value)), ("Vendor", "Intel".to_string()));
    assert_eq!(d.value[0].style, tone(Tone::MacAddr));
}

#[test]
fn ipv6_type_labels() {
    assert_eq!(ipv6_to_type_str(&[0x2001, 0xdb8, 0, 0, 0, 0, 0, 1]), "GUA");
    assert_eq!(ipv6_to_type_str(&[0xfd12, 0, 0, 0, 0, 0, 0, 1]), "ULA");
    assert_eq!(ipv6_to_type_str(&[0xfe80, 0, 0, 0, 0, 0, 0, 1]), "LLA");
    assert_eq!(ipv6_to_type_str(&[0xff02, 0, 0, 0, 0, 0, 0, 1]), "IPv6");
    assert!(is_global_unicast(&IpAddr::V6([0x2000, 0, 0, 0, 0, 0, 0, 0])));
    assert!(!is_global_unicast(&IpAddr::V6([0x4000, 0, 0, 0, 0, 0, 0, 0])));
    assert!(!is_global_unicast(&IpAddr::V4([32, 0, 0, 1])));
}

#[test]
fn hosts_sort_by_listed_address_and_keep_ties_in_order() {
    let mut a = bare(IpAddr::V4([10, 0, 0, 5]));
    a.hostname = Some("a".to_string());
    let mut b = bare(IpAddr::V4([10, 0, 0, 1]));
    b.hostname = Some("b".to_string());
    let mut c = bare(IpAddr::V6([0xfe80, 0, 0, 0, 0, 0, 0, 1]));
    c.hostname = Some("c".to_string());
    let mut d = bare(IpAddr::V4([10, 0, 0, 1]));
    d.hostname = Some("d".to_string());
    let mut e = bare(IpAddr::V4([192, 168, 0, 1]));
    e.ips = Vec::new();
    e.hostname = Some("e".to_string());
    let sorted = sort_hosts(vec![a, b, c, d, e]);
    let names: Vec<&str> = sorted.iter().map(|h| h.hostname.as_deref().unwrap()).collect();
    assert_eq!(names, vec!["b", "d", "a", "e", "c"]);
}

#[test]
fn hosts_sort_by_their_first_address_not_the_primary() {
    let mut a = bare(IpAddr::V4([10, 0, 0, 9]));
    a.ips = vec![IpAddr::V4([10, 0, 0, 1]), IpAddr::V4([10, 0, 0, 9])];
    a.hostname = Some("a".to_string());
    let mut b = bare(IpAddr::V4([10, 0, 0, 5]));
    b.hostname = Some("b".to_string());
    let sorted = sort_hosts(vec![b, a]);
    assert_eq!(sorted[0].hostname.as_deref(), Some("a"));
}
