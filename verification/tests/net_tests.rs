use zond::net::{ip_lt, ip_text, ipv6_kind, kind_label, mac_text, zero_run, IpAddr, Ipv6Kind, MacAddr};

fn v6(s: [u16; 8]) -> IpAddr {
    IpAddr::V6(s)
}

#[test]
fn ipv4_text_is_dotted_decimal() {
    assert_eq!(ip_text(&IpAddr::V4([192, 168, 1, 10])), "192.168.1.10");
    assert_eq!(ip_text(&IpAddr::V4([0, 0, 0, 0])), "0.0.0.0");
    assert_eq!(ip_text(&IpAddr::V4([255, 255, 255, 255])), "255.255.255.255");
}

#[test]
fn ipv6_text_compresses_the_longest_zero_run() {
    assert_eq!(ip_text(&v6([0, 0, 0, 0, 0, 0, 0, 1])), "::1");
    assert_eq!(ip_text(&v6([0; 8])), "::");
    assert_eq!(ip_text(&v6([0x2001, 0xdb8, 0, 0, 0, 0xff00, 0x42, 0x8329])), "2001:db8::ff00:42:8329");
    assert_eq!(ip_text(&v6([0xfe80, 0, 0, 0, 0, 0, 0, 1])), "fe80::1");
    assert_eq!(ip_text(&v6([1, 0, 0, 0, 0, 0, 0, 0])), "1::");
}

#[test]
fn ipv6_text_takes_the_first_of_equal_runs() {
    assert_eq!(ip_text(&v6([1, 0, 0, 1, 0, 0, 0, 1])), "1:0:0:1::1");
    assert_eq!(ip_text(&v6([0, 0, 1, 0, 0, 1, 0, 0])), "::1:0:0:1:0:0");
}

#[test]
fn ipv6_text_keeps_a_single_zero() {
    assert_eq!(ip_text(&v6([1, 0, 2, 3, 4, 5, 6, 7])), "1:0:2:3:4:5:6:7");
    assert_eq!(ip_text(&v6([0xabcd, 0xef01, 2, 3, 4, 5, 6, 7])), "abcd:ef01:2:3:4:5:6:7");
}

#[test]
fn ipv4_mapped_addresses_show_the_ipv4_part() {
    assert_eq!(ip_text(&v6([0, 0, 0, 0, 0, 0xffff, 0xc0a8, 0x0001])), "::ffff:192.168.0.1");
}

#[test]
fn zero_run_finds_start_and_length() {
    assert_eq!(zero_run(&[1, 0, 0, 1, 0, 0, 0, 1]), (4, 3));
    assert_eq!(zero_run(&[1, 0, 2, 3, 4, 5, 6, 7]), (1, 1));
    assert_eq!(zero_run(&[1, 2, 3, 4, 5, 6, 7, 8]).1, 0);
    assert_eq!(zero_run(&[0; 8]), (0, 8));
}

#[test]
fn mac_text_is_lowercase_hex_pairs() {
    let m = MacAddr { octets: [0x00, 0x1a, 0x2b, 0x3c, 0x4d, 0x5e] };
    assert_eq!(mac_text(&m), "00:1a:2b:3c:4d:5e");
    let m = MacAddr { octets: [0xff, 0xff, 0xff, 0xff, 0xff, 0xff] };
    assert_eq!(mac_text(&m), "ff:ff:ff:ff:ff:ff");
}

#[test]
fn ipv6_classes_by_prefix() {
    assert_eq!(ipv6_kind(&[0x2001, 0xdb8, 0, 0, 0, 0, 0, 1]), Ipv6Kind::GlobalUnicast);
    assert_eq!(ipv6_kind(&[0x3fff, 0, 0, 0, 0, 0, 0, 1]), Ipv6Kind::GlobalUnicast);
    assert_eq!(ipv6_kind(&[0xfd00, 0, 0, 0, 0, 0, 0, 1]), Ipv6Kind::UniqueLocal);
    assert_eq!(ipv6_kind(&[0xfc00, 0, 0, 0, 0, 0, 0, 1]), Ipv6Kind::UniqueLocal);
    assert_eq!(ipv6_kind(&[0xfe80, 0, 0, 0, 0, 0, 0, 1]), Ipv6Kind::LinkLocal);
    assert_eq!(ipv6_kind(&[0xfebf, 0, 0, 0, 0, 0, 0, 1]), Ipv6Kind::LinkLocal);
    assert_eq!(ipv6_kind(&[0, 0, 0, 0, 0, 0, 0, 1]), Ipv6Kind::Other);
    assert_eq!(ipv6_kind(&[0xff02, 0, 0, 0, 0, 0, 0, 1]), Ipv6Kind::Other);
    assert_eq!(ipv6_kind(&[0xfec0, 0, 0, 0, 0, 0, 0, 1]), Ipv6Kind::Other);
}

#[test]
fn class_labels() {
    assert_eq!(kind_label(Ipv6Kind::GlobalUnicast), "GUA");
    assert_eq!(kind_label(Ipv6Kind::UniqueLocal), "ULA");
    assert_eq!(kind_label(Ipv6Kind::LinkLocal), "LLA");
    assert_eq!(kind_label(Ipv6Kind::Other), "IPv6");
}

#[test]
fn addresses_order_ipv4_first_then_numerically() {
    let a = IpAddr::V4([10, 0, 0, 2]);
    let b = IpAddr::V4([10, 0, 0, 10]);
    let c = v6([0, 0, 0, 0, 0, 0, 0, 1]);
    assert!(ip_lt(&a, &b));
    assert!(!ip_lt(&b, &a));
    assert!(ip_lt(&b, &c));
    assert!(!ip_lt(&c, &a));
    assert!(!ip_lt(&a, &a));
    assert!(ip_lt(&v6([0xfe80, 0, 0, 0, 0, 0, 0, 1]), &v6([0xfe80, 0, 0, 0, 0, 0, 0, 2])));
}
