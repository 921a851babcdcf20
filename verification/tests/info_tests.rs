use std::collections::HashSet;

use zond::info::{FirewallStatus, InfoPrinter, IpServiceGroup, Service};
use zond::net::IpAddr;
use zond::style::{lit_span, tone, Content, Span, Style, Tone};

fn text(l: &[Span]) -> String {
    let mut s = String::new();
    for sp in l {
        match &sp.content {
            Content::Text(t) => s.push_str(t),
            Content::Redacted(_) => s.push_str("<redacted>"),
        }
    }
    s
}

fn service(name: &str, ports: &[u16]) -> Service {
    Service { name: name.to_string(), local_ports: ports.iter().copied().collect() }
}

#[test]
fn default_key_width_is_ten() {
    assert_eq!(InfoPrinter::default().key_width, 10);
}

#[test]
fn ports_are_listed_in_ascending_order() {
    let p = InfoPrinter::default();
    let set: HashSet<u16> = [443, 22, 80].into_iter().collect();
    assert_eq!(p.format_ports(&set), "22, 80, 443");
}

#[test]
fn only_the_five_lowest_ports_are_listed() {
    let p = InfoPrinter::default();
    let set: HashSet<u16> = (1..=7).collect();
    assert_eq!(p.format_ports(&set), "1, 2, 3, 4, 5, ...");
    let set: HashSet<u16> = (1..=5).rev().collect();
    assert_eq!(p.format_ports(&set), "1, 2, 3, 4, 5");
}

#[test]
fn no_ports_give_an_empty_listing() {
    assert_eq!(InfoPrinter::default().format_ports(&HashSet::new()), "");
    let set: HashSet<u16> = [65535].into_iter().collect();
    assert_eq!(InfoPrinter::default().format_ports(&set), "65535");
}

#[test]
fn key_width_follows_the_longest_service_name() {
    let groups = vec![
        IpServiceGroup {
            ip_addr: IpAddr::V4([127, 0, 0, 1]),
            tcp_services: vec![service("ssh", &[22])],
            udp_services: vec![service("postgres", &[5432])],
        },
        IpServiceGroup {
            ip_addr: IpAddr::V6([0, 0, 0, 0, 0, 0, 0, 1]),
            tcp_services: vec![service("nginx", &[80])],
            udp_services: Vec::new(),
        },
    ];
    assert_eq!(InfoPrinter::new(&groups).key_width, 14);
    let short = vec![IpServiceGroup {
        ip_addr: IpAddr::V4([127, 0, 0, 1]),
        tcp_services: vec![service("dns", &[53])],
        udp_services: Vec::new(),
    }];
    assert_eq!(InfoPrinter::new(&short).key_width, 10);
    assert_eq!(InfoPrinter::new(&Vec::new()).key_width, 10);
}

#[test]
fn aligned_line_pads_the_key_with_dots() {
    let p = InfoPrinter::default();
    let l = p.aligned_line("Version", lit_span("1.0", tone(Tone::TextDefault)));
    assert_eq!(text(&l), "> Version....: 1.0");
    let l = p.aligned_line("A-very-long-key", lit_span("x", tone(Tone::TextDefault)));
    assert_eq!(text(&l), "> A-very-long-key: x");
}

#[test]
fn about_section() {
    let lines = InfoPrinter::default().print_about("0.3.1");
    let texts: Vec<String> = lines.iter().map(|l| text(l)).collect();
    assert_eq!(
        texts,
        vec![
            "> Version....: 0.3.1",
            "> Author.....: hollowpointer",
            "> E-Mail.....: hollowpointer@pm.me",
            "> License....: MPL-2.0",
            "> Repository.: https://github.com/hollowpointer/zond",
        ]
    );
}

#[test]
fn firewall_status_lines() {
    let p = InfoPrinter::default();
    let r = p.print_firewall_status(FirewallStatus::Active);
    assert_eq!(text(&r.line), "> Status.....: active");
    assert_eq!(r.line[6].style, Style { tone: Tone::Green, bold: true, italic: false, dimmed: false });
    assert!(r.warning.is_none());
    let r = p.print_firewall_status(FirewallStatus::Inactive);
    assert_eq!(text(&r.line), "> Status.....: inactive");
    assert!(r.warning.is_none());
    let r = p.print_firewall_status(FirewallStatus::NotDetected);
    assert_eq!(text(&r.line), "> Status.....: inactive (not detected)");
    assert_eq!(r.line[6].style, tone(Tone::Yellow));
    assert_eq!(text(&r.warning.unwrap()), "No active firewall detected. Services may be exposed to public.");
}

#[test]
fn service_line_layout() {
    let p = InfoPrinter::default();
    let l = p.print_service_line(&service("ssh", &[22]), 0, 2, "│");
    assert_eq!(text(&l), " │   ├─ ssh..: 22");
    let l = p.print_service_line(&service("sshd", &[22, 2222]), 1, 2, " ");
    assert_eq!(text(&l), "     └─ sshd.: 22, 2222");
    let l = p.print_service_line(&service("a-long-name", &[1]), 0, 1, " ");
    assert_eq!(text(&l), "     └─ a-long-name: 1");
}

#[test]
fn service_group_with_both_protocols() {
    let p = InfoPrinter::default();
    let g = IpServiceGroup {
        ip_addr: IpAddr::V4([127, 0, 0, 1]),
        tcp_services: vec![service("ssh", &[22])],
        udp_services: vec![service("dns", &[53])],
    };
    let texts: Vec<String> = p.print_service_group(&g).iter().map(|l| text(l)).collect();
    assert_eq!(
        texts,
        vec!["[127.0.0.1]", " ├─ TCP", " │   └─ ssh..: 22", " └─ UDP", "     └─ dns..: 53"]
    );
}

#[test]
fn service_group_with_tcp_only() {
    let p = InfoPrinter::default();
    let g = IpServiceGroup {
        ip_addr: IpAddr::V6([0, 0, 0, 0, 0, 0, 0, 1]),
        tcp_services: vec![service("ssh", &[22]), service("http", &[80, 8080])],
        udp_services: Vec::new(),
    };
    let lines = p.print_service_group(&g);
    let texts: Vec<String> = lines.iter().map(|l| text(l)).collect();
    assert_eq!(texts, vec!["[::1]", " └─ TCP", "     ├─ ssh..: 22", "     └─ http.: 80, 8080"]);
    assert_eq!(lines[0][1].style, tone(Tone::Ipv6Addr));
}

#[test]
fn local_services_skip_empty_groups() {
    let p = InfoPrinter::default();
    let groups = vec![
        IpServiceGroup { ip_addr: IpAddr::V4([10, 0, 0, 1]), tcp_services: Vec::new(), udp_services: Vec::new() },
        IpServiceGroup {
            ip_addr: IpAddr::V4([127, 0, 0, 1]),
            tcp_services: vec![service("ssh", &[22])],
            udp_services: Vec::new(),
        },
        IpServiceGroup {
            ip_addr: IpAddr::V4([192, 168, 0, 2]),
            tcp_services: Vec::new(),
            udp_services: vec![service("dns", &[53])],
        },
    ];
    let blocks = p.print_local_services(&groups);
    assert_eq!(blocks.len(), 3);
    assert!(blocks[0].is_empty());
    assert_eq!(blocks[1].len(), 4);
    assert!(blocks[1][3].is_empty());
    assert_eq!(text(&blocks[1][0]), "[127.0.0.1]");
    assert_eq!(blocks[2].len(), 3);
    assert_eq!(text(&blocks[2][1]), " └─ UDP");
}

#[test]
fn system_section() {
    let p = InfoPrinter::default();
    let texts: Vec<String> = p.print_system("box", "Linux", "6.1.0", Some("alice")).iter().map(|l| text(l)).collect();
    assert_eq!(texts, vec!["> Hostname...: box", "> OS.........: Linux 6.1.0", "> User.......: alice"]);
    let lines = p.print_system("box", "Linux", "", None);
    assert_eq!(lines.len(), 2);
    assert_eq!(text(&lines[1]), "> OS.........: Linux ");
}
