//! The details shown under a host: its other addresses, its hardware
//! address, vendor and host name, each redacted on request.

use vstd::prelude::*;
use crate::host::Host;
use crate::layout::{one_span, Detail};
use crate::net::{
    in_global_unicast, ip_eq, ip_text, ipv6_kind, is_unicast_link_local, is_unique_local,
    kind_label, mac_text, spec_ip_text, spec_ipv6_kind, spec_kind_label, spec_mac_text, IpAddr,
    Ipv6Kind, MacAddr,
};
use crate::style::{spec_tone, tone, Content, Secret, Span, Style, Tone};

verus! {

/// Whether `ip` is an IPv6 global unicast address (its first octet lies in
/// 0x20..=0x3F); IPv4 addresses never are.
pub fn is_global_unicast(ip: &IpAddr) -> (r: bool)
    ensures
        r == match ip {
            IpAddr::V6(s) => in_global_unicast(s@),
            IpAddr::V4(_) => false,
        },
{
    match ip {
        IpAddr::V6(s) => {
            let x = s[0];
            let first_byte = (x >> 8u16) as u8;
            assert(((x >> 8u16) as u8 >= 0x20 && (x >> 8u16) as u8 <= 0x3f) == (0x2000 <= x
                && x <= 0x3fff)) by (bit_vector);
            0x20 <= first_byte && first_byte <= 0x3f
        },
        IpAddr::V4(_) => false,
    }
}

/// The label that names the class of an IPv6 address: "GUA", "ULA", "LLA",
/// or "IPv6" for any other.
pub fn ipv6_to_type_str(s: &[u16; 8]) -> (r: &'static str)
    ensures
        r@ == spec_kind_label(spec_ipv6_kind(s@)),
{
    if is_global_unicast(&IpAddr::V6(*s)) {
        return "GUA";
    }
    if is_unique_local(s) {
        return "ULA";
    }
    if is_unicast_link_local(s) {
        return "LLA";
    }
    "IPv6"
}

/// A detail (key text and value span) with a text value.
pub open spec fn is_text_detail(key: Seq<char>, value: Seq<Span>, k: Seq<char>, v: Seq<char>, t: Tone) -> bool {
    &&& key == k
    &&& value.len() == 1
    &&& value[0].content is Text
    &&& value[0].content->Text_0@ == v
    &&& value[0].style == spec_tone(t)
}

/// A detail (key text and value span) whose value is a redacted secret.
pub open spec fn is_secret_detail(key: Seq<char>, value: Seq<Span>, k: Seq<char>, secret: Secret, t: Tone) -> bool {
    &&& key == k
    &&& value.len() == 1
    &&& value[0].content == Content::Redacted(secret)
    &&& value[0].style == spec_tone(t)
}

/// Whether a detail (key text and value span) shows the address `ip`.
pub open spec fn is_ip_detail(key: Seq<char>, value: Seq<Span>, ip: IpAddr, redact: bool) -> bool {
    match ip {
        IpAddr::V4(_) => is_text_detail(key, value, "IPv4"@, spec_ip_text(ip), Tone::Ipv4Addr),
        IpAddr::V6(s) => {
            let kind = spec_ipv6_kind(s@);
            if redact && kind != Ipv6Kind::Other {
                is_secret_detail(key, value, spec_kind_label(kind), Secret::Ipv6(kind, s), Tone::Ipv6Addr)
            } else {
                is_text_detail(key, value, spec_kind_label(kind), spec_ip_text(ip), Tone::Ipv6Addr)
            }
        },
    }
}

/// Whether a detail shows the hardware address `m`.
pub open spec fn is_mac_detail(key: Seq<char>, value: Seq<Span>, m: MacAddr, redact: bool) -> bool {
    if redact {
        is_secret_detail(key, value, "MAC"@, Secret::Mac(m), Tone::MacAddr)
    } else {
        is_text_detail(key, value, "MAC"@, spec_mac_text(m.octets@), Tone::MacAddr)
    }
}

/// Whether a detail shows the vendor name `v`.
pub open spec fn is_vendor_detail(key: Seq<char>, value: Seq<Span>, v: Seq<char>) -> bool {
    is_text_detail(key, value, "Vendor"@, v, Tone::MacAddr)
}

/// Whether a detail shows the host name `h`.
pub open spec fn is_hostname_detail(key: Seq<char>, value: Seq<Span>, h: Seq<char>, redact: bool) -> bool {
    if redact {
        &&& key == "Hostname"@
        &&& value.len() == 1
        &&& value[0].style == spec_tone(Tone::Hostname)
        &&& value[0].content is Redacted
        &&& value[0].content->Redacted_0 is Hostname
        &&& value[0].content->Redacted_0->Hostname_0@ == h
    } else {
        is_text_detail(key, value, "Hostname"@, h, Tone::Hostname)
    }
}

/// The addresses of `ips` other than `primary`, in order.
pub open spec fn others(ips: Seq<IpAddr>, primary: IpAddr) -> Seq<IpAddr>
    decreases ips.len(),
{
    if ips.len() == 0 {
        Seq::empty()
    } else {
        let rest = others(ips.drop_last(), primary);
        if ips.last() == primary {
            rest
        } else {
            rest.push(ips.last())
        }
    }
}

/// The primary address is never among the others, and every other address
/// of the host is.
pub proof fn lemma_others(ips: Seq<IpAddr>, primary: IpAddr)
    ensures
        forall|k: int| 0 <= k < others(ips, primary).len() ==> #[trigger] others(ips, primary)[k]
            != primary,
        forall|k: int|
            0 <= k < ips.len() && ips[k] != primary ==> others(ips, primary).contains(
                #[trigger] ips[k],
            ),
        others(ips, primary).len() <= ips.len(),
    decreases ips.len(),
{
    if ips.len() > 0 {
        lemma_others(ips.drop_last(), primary);
        let rest = others(ips.drop_last(), primary);
        assert forall|k: int| 0 <= k < ips.len() && ips[k] != primary implies others(
            ips,
            primary,
        ).contains(#[trigger] ips[k]) by {
            if k < ips.len() - 1 {
                assert(ips.drop_last()[k] == ips[k]);
                let j = choose|j: int| 0 <= j < rest.len() && rest[j] == ips[k];
                if ips.last() != primary {
                    assert(others(ips, primary)[j] == ips[k]);
                }
            } else {
                assert(others(ips, primary)[others(ips, primary).len() - 1] == ips[k]);
            }
        }
    }
}

/// The detail for one address.
fn ip_detail(ip: &IpAddr, redact: bool) -> (d: Detail)
    ensures
        is_ip_detail(d.key@, d.value@, *ip, redact),
{
    match ip {
        IpAddr::V4(_) => Detail {
            key: "IPv4".to_owned(),
            value: one_span(Span { content: Content::Text(ip_text(ip)), style: tone(Tone::Ipv4Addr) }),
        },
        IpAddr::V6(s) => {
            let label = ipv6_to_type_str(s);
            let kind = ipv6_kind(s);
            let content = if redact && kind != Ipv6Kind::Other {
                Content::Redacted(Secret::Ipv6(kind, *s))
            } else {
                Content::Text(ip_text(ip))
            };
            Detail { key: label.to_owned(), value: one_span(Span { content, style: tone(Tone::Ipv6Addr) }) }
        },
    }
}

/// The details for the host's addresses other than its primary one, in the
/// order of the host's address list.
pub fn ip_to_detail(host: &Host, redact: bool) -> (details: Vec<Detail>)
    ensures
        details@.len() == others(host.ips@, host.primary_ip).len(),
        forall|k: int|
            0 <= k < details@.len() ==> is_ip_detail(
                #[trigger] details@[k].key@,
                details@[k].value@,
                others(host.ips@, host.primary_ip)[k],
                redact,
            ),
{
    let mut details: Vec<Detail> = Vec::new();
    let n = host.ips.len();
    let mut i: usize = 0;
    while i < n
        invariant
            n == host.ips@.len(),
            i <= n,
            details@.len() == others(host.ips@.take(i as int), host.primary_ip).len(),
            forall|k: int|
                0 <= k < details@.len() ==> is_ip_detail(
                    #[trigger] details@[k].key@,
                    details@[k].value@,
                    others(host.ips@.take(i as int), host.primary_ip)[k],
                    redact,
                ),
        decreases n - i,
    {
        let ip = &host.ips[i];
        let ghost prev = host.ips@.take(i as int);
        assert(host.ips@.take(i + 1).drop_last() =~= prev);
        if !ip_eq(ip, &host.primary_ip) {
            details.push(ip_detail(ip, redact));
        }
        i = i + 1;
    }
    assert(host.ips@.take(n as int) =~= host.ips@);
    details
}

/// The detail for a host name, if there is one.
pub fn hostname_to_detail(hostname_opt: Option<&str>, redact: bool) -> (r: Option<Detail>)
    ensures
        match hostname_opt {
            None => r is None,
            Some(h) => r is Some && is_hostname_detail(r->0.key@, r->0.value@, h@, redact),
        },
{
    let mut result: Option<Detail> = None;
    if let Some(hostname) = hostname_opt {
        let content = if redact {
            Content::Redacted(Secret::Hostname(hostname.to_owned()))
        } else {
            Content::Text(hostname.to_owned())
        };
        result = Some(
            Detail {
                key: "Hostname".to_owned(),
                value: one_span(Span { content, style: tone(Tone::Hostname) }),
            },
        );
    }
    result
}

/// The detail for a hardware address, if there is one.
pub fn mac_to_detail(mac_opt: Option<MacAddr>, redact: bool) -> (r: Option<Detail>)
    ensures
        match mac_opt {
            None => r is None,
            Some(m) => r is Some && is_mac_detail(r->0.key@, r->0.value@, m, redact),
        },
{
    let mut result: Option<Detail> = None;
    if let Some(mac) = mac_opt {
        let content = if redact {
            Content::Redacted(Secret::Mac(mac))
        } else {
            Content::Text(mac_text(&mac))
        };
        result = Some(
            Detail { key: "MAC".to_owned(), value: one_span(Span { content, style: tone(Tone::MacAddr) }) },
        );
    }
    result
}

/// The detail for a vendor name, if there is one.
pub fn vendor_to_detail(vendor_opt: Option<&str>) -> (r: Option<Detail>)
    ensures
        match vendor_opt {
            None => r is None,
            Some(v) => r is Some && is_vendor_detail(r->0.key@, r->0.value@, v@),
        },
{
    match vendor_opt {
        Some(vendor) => Some(
            Detail {
                key: "Vendor".to_owned(),
                value: one_span(Span { content: Content::Text(vendor.to_owned()), style: tone(Tone::MacAddr) }),
            },
        ),
        None => None,
    }
}

} // verus!
