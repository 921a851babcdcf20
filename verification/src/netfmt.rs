//! Local network interfaces as trees of their networks and hardware address.

use vstd::prelude::*;
use crate::layout::{as_tree, is_tree_line, tree_head, Detail};
use crate::format::{is_mac_detail, mac_to_detail};
use crate::net::{ip_text, ipv6_kind, kind_label, spec_ip_text, spec_ipv6_kind, spec_kind_label, IpAddr, Ipv6Kind, MacAddr};
use crate::style::{lit_span, shows, span_text, spec_tone, text_span, tone, Content, Secret, Span, Tone};
use crate::text::{decimal_text, spec_decimal};

verus! {

/// An address of an interface with the prefix length of its network.
#[derive(Clone, Copy, PartialEq, Eq, Debug)]
pub struct IpNetwork {
    pub ip: IpAddr,
    pub prefix: u8,
}

/// A local network interface.
#[derive(Debug)]
pub struct NetworkInterface {
    pub name: String,
    pub ips: Vec<IpNetwork>,
    pub mac: Option<MacAddr>,
}

/// Whether a detail (key text and value spans) shows the network `net`:
/// `<address>/<prefix>`, keyed "IPv4" or by the IPv6 class; with `redact`,
/// an IPv6 address of a named class is a redacted secret.
pub open spec fn is_network_detail(key: Seq<char>, value: Seq<Span>, net: IpNetwork, redact: bool) -> bool {
    let (k, addr_tone, prefix_tone) = match net.ip {
        IpAddr::V4(_) => ("IPv4"@, Tone::Ipv4Addr, Tone::Ipv4Prefix),
        IpAddr::V6(s) => (spec_kind_label(spec_ipv6_kind(s@)), Tone::Ipv6Addr, Tone::Ipv6Prefix),
    };
    &&& key == k
    &&& value.len() == 3
    &&& match net.ip {
        IpAddr::V6(s) => {
            let kind = spec_ipv6_kind(s@);
            if redact && kind != Ipv6Kind::Other {
                value[0].content == Content::Redacted(Secret::Ipv6(kind, s)) && value[0].style
                    == spec_tone(addr_tone)
            } else {
                shows(value[0], spec_ip_text(net.ip), spec_tone(addr_tone))
            }
        },
        IpAddr::V4(_) => shows(value[0], spec_ip_text(net.ip), spec_tone(addr_tone)),
    }
    &&& shows(value[1], "/"@, spec_tone(Tone::Separator))
    &&& shows(value[2], spec_decimal(net.prefix as nat), spec_tone(prefix_tone))
}

/// The detail for one network.
fn network_detail(net: &IpNetwork, redact: bool) -> (d: Detail)
    ensures
        is_network_detail(d.key@, d.value@, *net, redact),
{
    let (key, addr_tone, prefix_tone) = match &net.ip {
        IpAddr::V4(_) => ("IPv4", Tone::Ipv4Addr, Tone::Ipv4Prefix),
        IpAddr::V6(s) => (kind_label(ipv6_kind(s)), Tone::Ipv6Addr, Tone::Ipv6Prefix),
    };
    let content = match &net.ip {
        IpAddr::V6(s) => {
            let kind = ipv6_kind(s);
            if redact && kind != Ipv6Kind::Other {
                Content::Redacted(Secret::Ipv6(kind, *s))
            } else {
                Content::Text(ip_text(&net.ip))
            }
        },
        IpAddr::V4(_) => Content::Text(ip_text(&net.ip)),
    };
    let mut value: Vec<Span> = Vec::new();
    value.push(Span { content, style: tone(addr_tone) });
    value.push(lit_span("/", tone(Tone::Separator)));
    value.push(text_span(decimal_text(net.prefix as u128), tone(prefix_tone)));
    Detail { key: key.to_owned(), value }
}

/// The details for an interface's networks, in order, redacted on request.
pub fn to_print_map_net(ip_net: &Vec<IpNetwork>, redact: bool) -> (details: Vec<Detail>)
    ensures
        details@.len() == ip_net@.len(),
        forall|k: int|
            0 <= k < details@.len() ==> is_network_detail(
                #[trigger] details@[k].key@,
                details@[k].value@,
                ip_net@[k],
                redact,
            ),
{
    let mut details: Vec<Detail> = Vec::new();
    let mut i: usize = 0;
    while i < ip_net.len()
        invariant
            i <= ip_net@.len(),
            details@.len() == i,
            forall|k: int|
                0 <= k < i ==> is_network_detail(
                    #[trigger] details@[k].key@,
                    details@[k].value@,
                    ip_net@[k],
                    redact,
                ),
        decreases ip_net@.len() - i,
    {
        details.push(network_detail(&ip_net[i], redact));
        i = i + 1;
    }
    details
}

/// Whether `lines` show interface `iface` at index `idx`: its header, then
/// its networks and its hardware address (when known) as a tree, with IPv6
/// addresses of the named classes and the hardware address redacted when
/// `redact` is set.
pub open spec fn is_interface_block(lines: Seq<Vec<Span>>, iface: NetworkInterface, idx: usize, redact: bool) -> bool {
    let nn = iface.ips@.len();
    let nd = nn + if iface.mac is Some {
        1nat
    } else {
        0nat
    };
    &&& lines.len() == 1 + nd
    &&& lines[0]@.len() == 5
    &&& shows(lines[0]@[0], "["@, spec_tone(Tone::Separator))
    &&& shows(lines[0]@[1], spec_decimal(idx as nat), spec_tone(Tone::Accent))
    &&& shows(lines[0]@[2], "]"@, spec_tone(Tone::Separator))
    &&& shows(lines[0]@[3], " "@, spec_tone(Tone::Plain))
    &&& shows(lines[0]@[4], iface.name@, spec_tone(Tone::Primary))
    &&& forall|k: int|
        0 <= k < nd ==> {
            let l = #[trigger] lines[1 + k]@;
            &&& is_tree_line(l, k, nd as int, span_text(l[3]), l.skip(7))
            &&& if k < nn {
                is_network_detail(span_text(l[3]), l.skip(7), iface.ips@[k], redact)
            } else {
                is_mac_detail(span_text(l[3]), l.skip(7), iface.mac->0, redact)
            }
        }
}

/// The lines that show a network interface at position `idx`, redacted on
/// request.
pub fn print_interface(interface: &NetworkInterface, idx: usize, redact: bool) -> (lines: Vec<Vec<Span>>)
    ensures
        is_interface_block(lines@, *interface, idx, redact),
{
    let mut details = to_print_map_net(&interface.ips, redact);
    let ghost n_net = details@.len();
    if let Some(mac_detail) = mac_to_detail(interface.mac, redact) {
        details.push(mac_detail);
    }
    let ghost dv = details@;
    let nd = details.len();
    let tree = as_tree(details);
    let ghost tv = tree@;
    let mut lines: Vec<Vec<Span>> = Vec::new();
    lines.push(tree_head(idx, interface.name.as_str()));
    let mut rest = tree;
    let mut i: usize = 0;
    while i < nd
        invariant
            nd == tv.len(),
            i <= nd,
            rest@ == tv.skip(i as int),
            lines@.len() == 1 + i,
            forall|k: int| 0 <= k < i ==> #[trigger] lines@[1 + k] == tv[k],
            lines@[0]@.len() == 5,
            shows(lines@[0]@[0], "["@, spec_tone(Tone::Separator)),
            shows(lines@[0]@[1], spec_decimal(idx as nat), spec_tone(Tone::Accent)),
            shows(lines@[0]@[2], "]"@, spec_tone(Tone::Separator)),
            shows(lines@[0]@[3], " "@, spec_tone(Tone::Plain)),
            shows(lines@[0]@[4], interface.name@, spec_tone(Tone::Primary)),
        decreases nd - i,
    {
        let l = rest.remove(0);
        lines.push(l);
        i = i + 1;
        assert(rest@ =~= tv.skip(i as int));
    }
    assert forall|k: int| 0 <= k < nd implies {
        let l = #[trigger] lines@[1 + k]@;
        &&& is_tree_line(l, k, nd as int, span_text(l[3]), l.skip(7))
        &&& if k < interface.ips@.len() {
            is_network_detail(span_text(l[3]), l.skip(7), interface.ips@[k], redact)
        } else {
            is_mac_detail(span_text(l[3]), l.skip(7), interface.mac->0, redact)
        }
    } by {
        assert(lines@[1 + k] == tv[k]);
        assert(is_tree_line(tv[k]@, k, nd as int, dv[k].key@, dv[k].value@));
    }
    lines
}

/// The network interfaces, one block per interface: its lines (redacted on
/// request), followed by a blank line unless it is the last.
pub fn print_network_interfaces(interfaces: &Vec<NetworkInterface>, redact: bool) -> (blocks: Vec<Vec<Vec<Span>>>)
    ensures
        blocks@.len() == interfaces@.len(),
        forall|k: int|
            0 <= k < interfaces@.len() ==> {
                let b = #[trigger] blocks@[k]@;
                let blank: int = if k + 1 != interfaces@.len() {
                    1
                } else {
                    0
                };
                &&& b.len() > blank
                &&& is_interface_block(b.take(b.len() - blank), interfaces@[k], k as usize, redact)
                &&& blank == 1 ==> b.last()@.len() == 0
            },
{
    let n = interfaces.len();
    let mut blocks: Vec<Vec<Vec<Span>>> = Vec::new();
    let mut idx: usize = 0;
    while idx < n
        invariant
            n == interfaces@.len(),
            idx <= n,
            blocks@.len() == idx,
            forall|k: int|
                0 <= k < idx ==> {
                    let b = #[trigger] blocks@[k]@;
                    let blank: int = if k + 1 != n {
                        1
                    } else {
                        0
                    };
                    &&& b.len() > blank
                    &&& is_interface_block(b.take(b.len() - blank), interfaces@[k], k as usize, redact)
                    &&& blank == 1 ==> b.last()@.len() == 0
                },
        decreases n - idx,
    {
        let mut block = print_interface(&interfaces[idx], idx, redact);
        let ghost body = block@;
        if idx + 1 != n {
            block.push(Vec::new());
            assert(block@.take(block@.len() - 1) =~= body);
        } else {
            assert(block@.take(block@.len() - 0) =~= body);
        }
        blocks.push(block);
        idx = idx + 1;
    }
    blocks
}

} // verus!
