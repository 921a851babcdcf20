//! The `info` report: aligned key/value lines, the firewall status, and the
//! local services grouped by address and protocol.

use vstd::prelude::*;
use std::collections::HashSet;
use crate::net::{ip_text, spec_ip_text, IpAddr};
use crate::style::{bold, lit_span, shows, spec_tone, text_span, tone, Span, Style, Tone};
use crate::text::{push_char, push_digits, push_repeat, repeat_text, spec_decimal, spec_repeat};
use crate::layout::byte_len;

verus! {

broadcast use vstd::std_specs::hash::group_hash_axioms;

/// Whether the values are in strictly increasing order.
pub open spec fn strictly_increasing(s: Seq<u16>) -> bool {
    forall|i: int, j: int| 0 <= i < j < s.len() ==> s[i] < s[j]
}

/// Decimal numbers separated by ", ".
pub open spec fn spec_join_numbers(s: Seq<u16>) -> Seq<char>
    decreases s.len(),
{
    if s.len() == 0 {
        Seq::empty()
    } else if s.len() == 1 {
        spec_decimal(s[0] as nat)
    } else {
        spec_join_numbers(s.drop_last()) + ", "@ + spec_decimal(s.last() as nat)
    }
}

/// The listing of ports given in ascending order: the first five, and
/// ", ..." when there are more.
pub open spec fn spec_ports_text(sorted: Seq<u16>) -> Seq<char> {
    if sorted.len() > 5 {
        spec_join_numbers(sorted.take(5)) + ", ..."@
    } else {
        spec_join_numbers(sorted)
    }
}

/// The ports of a set, in ascending order.
fn sorted_ports(ports: &HashSet<u16>) -> (v: Vec<u16>)
    ensures
        v@.to_set() == ports@,
        strictly_increasing(v@),
{
    let mut all: Vec<u16> = Vec::new();
    let ghost keys = vstd::std_specs::iter::IteratorSpec::remaining(
        &vstd::std_specs::hash::spec_hash_keys_iter(ports),
    );
    for p in it: ports.iter()
        invariant
            all@.len() == it.index(),
            it.seq() == keys,
            forall|k: int| 0 <= k < it.index() ==> all@[k] == *keys[k],
    {
        all.push(*p);
    }
    let ghost src = all@;
    assert(src.len() == keys.len());
    assert(src.to_set() == ports@ && src.no_duplicates()) by {
        assert(src =~= keys.unref()) by {
            assert forall|k: int| 0 <= k < src.len() implies src[k] == keys.unref()[k] by {}
        }
    }
    let mut sorted: Vec<u16> = Vec::new();
    let mut i: usize = 0;
    while i < all.len()
        invariant
            all@ == src,
            src.no_duplicates(),
            i <= src.len(),
            strictly_increasing(sorted@),
            sorted@.to_set() == src.take(i as int).to_set(),
        decreases src.len() - i,
    {
        let x = all[i];
        assert(!src.take(i as int).contains(x)) by {
            if src.take(i as int).contains(x) {
                let k = choose|k: int| 0 <= k < i && src.take(i as int)[k] == x;
                assert(src[k] == src[i as int]);
            }
        }
        assert(!sorted@.contains(x)) by {
            assert(!sorted@.to_set().contains(x));
        }
        let mut pos = sorted.len();
        while pos > 0 && sorted[pos - 1] > x
            invariant
                pos <= sorted@.len(),
                forall|k: int| pos <= k < sorted@.len() ==> x < sorted@[k],
            decreases pos,
        {
            pos = pos - 1;
        }
        let ghost before = sorted@;
        proof {
            if pos > 0 {
                assert(before[pos - 1] != x) by {
                    assert(before.contains(before[pos - 1]));
                }
            }
        }
        sorted.insert(pos, x);
        assert(sorted@.to_set() =~= src.take(i + 1).to_set()) by {
            assert(src.take(i + 1) =~= src.take(i as int).push(x));
            assert forall|a: u16| sorted@.contains(a) implies src.take(i + 1).contains(a) by {
                let k = choose|k: int| 0 <= k < sorted@.len() && sorted@[k] == a;
                if k < pos {
                    assert(before.contains(a)) by { assert(before[k] == a); }
                    assert(before.to_set().contains(a));
                    let j = choose|j: int| 0 <= j < i && src.take(i as int)[j] == a;
                    assert(src.take(i + 1)[j] == a);
                } else if k > pos {
                    assert(before.contains(a)) by { assert(before[k - 1] == a); }
                    assert(before.to_set().contains(a));
                    let j = choose|j: int| 0 <= j < i && src.take(i as int)[j] == a;
                    assert(src.take(i + 1)[j] == a);
                } else {
                    assert(src.take(i + 1)[i as int] == a);
                }
            }
            assert forall|a: u16| src.take(i + 1).contains(a) implies sorted@.contains(a) by {
                let j = choose|j: int| 0 <= j <= i && #[trigger] src.take(i + 1)[j] == a;
                if j < i {
                    assert(src.take(i as int).contains(a)) by { assert(src.take(i as int)[j] == a); }
                    assert(before.to_set().contains(a));
                    let k = choose|k: int| 0 <= k < before.len() && before[k] == a;
                    if k < pos {
                        assert(sorted@[k] == a);
                    } else {
                        assert(sorted@[k + 1] == a);
                    }
                } else {
                    assert(sorted@[pos as int] == a);
                }
            }
        }
        assert(strictly_increasing(sorted@)) by {
            assert forall|a: int, b: int| 0 <= a < b < sorted@.len() implies sorted@[a] < sorted@[b] by {
                if b < pos {
                } else if a > pos {
                    assert(sorted@[a] == before[a - 1]);
                    assert(sorted@[b] == before[b - 1]);
                } else if a == pos {
                    assert(sorted@[b] == before[b - 1]);
                } else if b == pos {
                    if a < pos - 1 {
                        assert(before[a] < before[pos - 1]);
                    }
                } else {
                    assert(sorted@[b] == before[b - 1]);
                }
            }
        }
        i = i + 1;
    }
    assert(src.take(src.len() as int) =~= src);
    sorted
}

/// Appends `s[from..to]` as decimal numbers separated by ", ".
fn push_join_numbers(out: &mut String, s: &Vec<u16>, to: usize)
    requires
        to <= s@.len(),
    ensures
        final(out)@ == old(out)@ + spec_join_numbers(s@.take(to as int)),
{
    let mut k: usize = 0;
    assert(s@.take(0) =~= Seq::<u16>::empty());
    while k < to
        invariant
            k <= to <= s@.len(),
            out@ == old(out)@ + spec_join_numbers(s@.take(k as int)),
        decreases to - k,
    {
        if k > 0 {
            out.append(", ");
        }
        push_digits(out, s[k] as u128, 10);
        k = k + 1;
        assert(s@.take(k as int).drop_last() =~= s@.take(k - 1));
        assert(out@ =~= old(out)@ + spec_join_numbers(s@.take(k as int)));
    }
}

/// A local service and the ports it listens on.
#[derive(Debug)]
pub struct Service {
    pub name: String,
    pub local_ports: HashSet<u16>,
}

/// The services listening on one address, by protocol.
#[derive(Debug)]
pub struct IpServiceGroup {
    pub ip_addr: IpAddr,
    pub tcp_services: Vec<Service>,
    pub udp_services: Vec<Service>,
}

/// Whether a firewall was found, and whether it is on.
#[derive(Clone, Copy, PartialEq, Eq, Structural, Debug)]
pub enum FirewallStatus {
    Active,
    Inactive,
    NotDetected,
}

/// Lays out the `info` report with keys padded to a common width.
#[derive(Clone, Copy, PartialEq, Eq, Structural, Debug)]
pub struct InfoPrinter {
    /// Width of the key column for alignment.
    pub key_width: usize,
}

impl InfoPrinter {
    /// A layout with the default key width, 10.
    pub fn default() -> (p: InfoPrinter)
        ensures
            p.key_width == 10,
    {
        InfoPrinter { key_width: 10 }
    }

    /// The listing of a service's ports: the five lowest in ascending order,
    /// separated by ", ", and ", ..." when there are more.
    pub fn format_ports(&self, ports: &HashSet<u16>) -> (r: String)
        ensures
            exists|sorted: Seq<u16>| sorted.to_set() == ports@ && strictly_increasing(sorted)
                && r@ == spec_ports_text(sorted),
    {
        let port_list = sorted_ports(ports);
        let count = port_list.len();
        let mut r = String::new();
        if count > 5 {
            push_join_numbers(&mut r, &port_list, 5);
            r.append(", ...");
        } else {
            push_join_numbers(&mut r, &port_list, count);
            assert(port_list@.take(count as int) =~= port_list@);
        }
        r
    }
}

/// Whether `t` lists the ports of the set `ports`, as `format_ports` does.
pub open spec fn is_ports_text(t: Seq<char>, ports: Set<u16>) -> bool {
    exists|sorted: Seq<u16>| sorted.to_set() == ports && strictly_increasing(sorted) && t
        == spec_ports_text(sorted)
}

/// The longest byte length of the services' names (0 for none).
pub open spec fn max_name_len(svcs: Seq<Service>) -> int
    decreases svcs.len(),
{
    if svcs.len() == 0 {
        0
    } else {
        let rest = max_name_len(svcs.drop_last());
        let n = byte_len(svcs.last().name@) as int;
        if n > rest {
            n
        } else {
            rest
        }
    }
}

/// The longest byte length of a service name in the groups (0 for none).
pub open spec fn max_group_name_len(groups: Seq<IpServiceGroup>) -> int
    decreases groups.len(),
{
    if groups.len() == 0 {
        0
    } else {
        let rest = max_group_name_len(groups.drop_last());
        let g = groups.last();
        let a = max_name_len(g.tcp_services@);
        let b = max_name_len(g.udp_services@);
        let m = if a > b {
            a
        } else {
            b
        };
        if m > rest {
            m
        } else {
            rest
        }
    }
}

/// The longest name length bounds the length of every name, and one name
/// reaches it (it is 0 when there are no services).
pub proof fn lemma_max_name_len(svcs: Seq<Service>)
    ensures
        forall|i: int| 0 <= i < svcs.len() ==> byte_len(#[trigger] svcs[i].name@) <= max_name_len(svcs),
        svcs.len() == 0 ==> max_name_len(svcs) == 0,
        svcs.len() > 0 ==> exists|i: int|
            0 <= i < svcs.len() && byte_len(#[trigger] svcs[i].name@) == max_name_len(svcs),
    decreases svcs.len(),
{
    if svcs.len() > 0 {
        let rest = svcs.drop_last();
        lemma_max_name_len(rest);
        assert forall|i: int| 0 <= i < svcs.len() implies byte_len(#[trigger] svcs[i].name@) <= max_name_len(svcs) by {
            if i < svcs.len() - 1 {
                assert(rest[i] == svcs[i]);
            }
        }
        if byte_len(svcs.last().name@) as int > max_name_len(rest) {
            assert(byte_len(svcs[svcs.len() - 1].name@) == max_name_len(svcs));
        } else if rest.len() > 0 {
            let j = choose|j: int| 0 <= j < rest.len() && byte_len(#[trigger] rest[j].name@) == max_name_len(rest);
            assert(rest[j] == svcs[j]);
            assert(byte_len(svcs[j].name@) == max_name_len(svcs));
        } else {
            assert(byte_len(svcs[svcs.len() - 1].name@) == max_name_len(svcs));
        }
    }
}

/// Whether one of the group's TCP or UDP services has a name of `n` bytes.
pub open spec fn group_has_name_len(grp: IpServiceGroup, n: int) -> bool {
    (exists|i: int| 0 <= i < grp.tcp_services@.len() && byte_len(#[trigger] grp.tcp_services@[i].name@) == n)
        || (exists|i: int| 0 <= i < grp.udp_services@.len() && byte_len(#[trigger] grp.udp_services@[i].name@) == n)
}

/// Whether some service of the groups has a name of `n` bytes.
pub open spec fn some_name_has_len(groups: Seq<IpServiceGroup>, n: int) -> bool {
    exists|g: int| 0 <= g < groups.len() && #[trigger] group_has_name_len(groups[g], n)
}

/// The longest name length over the groups bounds the length of every TCP
/// and UDP service name, and is 0 or the length of one of them.
pub proof fn lemma_max_group_name_len(groups: Seq<IpServiceGroup>)
    ensures
        forall|g: int, i: int|
            0 <= g < groups.len() && 0 <= i < groups[g].tcp_services@.len() ==> byte_len(
                #[trigger] groups[g].tcp_services@[i].name@,
            ) <= max_group_name_len(groups),
        forall|g: int, i: int|
            0 <= g < groups.len() && 0 <= i < groups[g].udp_services@.len() ==> byte_len(
                #[trigger] groups[g].udp_services@[i].name@,
            ) <= max_group_name_len(groups),
        max_group_name_len(groups) == 0 || some_name_has_len(groups, max_group_name_len(groups)),
        max_group_name_len(groups) >= 0,
    decreases groups.len(),
{
    if groups.len() > 0 {
        let rest = groups.drop_last();
        let last = groups.len() - 1;
        let gl = groups[last];
        lemma_max_group_name_len(rest);
        lemma_max_name_len(gl.tcp_services@);
        lemma_max_name_len(gl.udp_services@);
        let m = max_group_name_len(groups);
        assert forall|g: int, i: int|
            0 <= g < groups.len() && 0 <= i < groups[g].tcp_services@.len() implies byte_len(
                #[trigger] groups[g].tcp_services@[i].name@,
            ) <= m by {
            if g < last {
                assert(rest[g] == groups[g]);
            }
        }
        assert forall|g: int, i: int|
            0 <= g < groups.len() && 0 <= i < groups[g].udp_services@.len() implies byte_len(
                #[trigger] groups[g].udp_services@[i].name@,
            ) <= m by {
            if g < last {
                assert(rest[g] == groups[g]);
            }
        }
        if m != 0 {
            let a = max_name_len(gl.tcp_services@);
            let b = max_name_len(gl.udp_services@);
            if m == max_group_name_len(rest) {
                let g = choose|g: int| 0 <= g < rest.len() && #[trigger] group_has_name_len(rest[g], m);
                assert(rest[g] == groups[g]);
                assert(group_has_name_len(groups[g], m));
            } else if m == a {
                let i = choose|i: int|
                    0 <= i < gl.tcp_services@.len() && byte_len(#[trigger] gl.tcp_services@[i].name@) == a;
                assert(byte_len(groups[last].tcp_services@[i].name@) == m);
                assert(group_has_name_len(groups[last], m));
            } else {
                let i = choose|i: int|
                    0 <= i < gl.udp_services@.len() && byte_len(#[trigger] gl.udp_services@[i].name@) == b;
                assert(byte_len(groups[last].udp_services@[i].name@) == m);
                assert(group_has_name_len(groups[last], m));
            }
        }
    }
}

/// The longest name among services.
fn longest_name(svcs: &Vec<Service>) -> (r: usize)
    ensures
        r == max_name_len(svcs@),
{
    let mut r: usize = 0;
    let mut i: usize = 0;
    while i < svcs.len()
        invariant
            i <= svcs@.len(),
            r == max_name_len(svcs@.take(i as int)),
        decreases svcs@.len() - i,
    {
        assert(svcs@.take(i + 1).drop_last() =~= svcs@.take(i as int));
        let n = svcs[i].name.as_str().len();
        if n > r {
            r = n;
        }
        i = i + 1;
    }
    assert(svcs@.take(svcs@.len() as int) =~= svcs@);
    r
}

/// Whether `l` is the line `> <key><dots>: <value>` for a key column of
/// `key_width`.
pub open spec fn is_aligned_line(l: Seq<Span>, key_width: usize, key: Seq<char>, value: Span) -> bool {
    let width: int = if key_width < usize::MAX {
        key_width + 1
    } else {
        usize::MAX as int
    };
    let dots: nat = if width > byte_len(key) {
        (width - byte_len(key)) as nat
    } else {
        0
    };
    &&& l.len() == 7
    &&& shows(l[0], ">"@, spec_tone(Tone::Separator))
    &&& shows(l[1], " "@, spec_tone(Tone::Plain))
    &&& shows(l[2], key, spec_tone(Tone::Primary))
    &&& shows(l[3], spec_repeat("."@, dots), spec_tone(Tone::Separator))
    &&& shows(l[4], ":"@, spec_tone(Tone::Separator))
    &&& shows(l[5], " "@, spec_tone(Tone::Plain))
    &&& l[6] == value
}

/// The firewall status as shown, with its style.
pub open spec fn spec_firewall_text(status: FirewallStatus) -> (Seq<char>, Style) {
    match status {
        FirewallStatus::Active => (
            "active"@,
            Style { tone: Tone::Green, bold: true, italic: false, dimmed: false },
        ),
        FirewallStatus::Inactive => (
            "inactive"@,
            Style { tone: Tone::Red, bold: true, italic: false, dimmed: false },
        ),
        FirewallStatus::NotDetected => ("inactive (not detected)"@, spec_tone(Tone::Yellow)),
    }
}

/// The firewall part of the report.
#[derive(Debug)]
pub struct FirewallReport {
    /// The aligned status line.
    pub line: Vec<Span>,
    /// A warning shown after a blank line when no firewall was found.
    pub warning: Option<Vec<Span>>,
}

/// Whether the width arithmetic of a service line stays within `i32`.
pub open spec fn dots_fit(key_width: usize, name_len: usize) -> bool {
    let d = (key_width as i32) as int - (name_len as i32) as int;
    &&& i32::MIN <= d <= i32::MAX
    &&& d - 5 >= i32::MIN
}

/// The dots after a service name.
pub open spec fn service_dots(key_width: usize, name_len: usize) -> nat {
    let d = (key_width as i32) as int - (name_len as i32) as int - 5;
    if d > 0 {
        d as nat
    } else {
        0
    }
}

/// Whether `l` is the line for `svc`, entry `idx` of `total`, under a
/// category whose vertical bar is `vertical`.
pub open spec fn is_service_line(
    l: Seq<Span>,
    key_width: usize,
    svc: Service,
    idx: int,
    total: int,
    vertical: Seq<char>,
) -> bool {
    &&& l.len() == 10
    &&& shows(l[0], " "@, spec_tone(Tone::Plain))
    &&& shows(l[1], vertical, spec_tone(Tone::Separator))
    &&& shows(l[2], "   "@, spec_tone(Tone::Plain))
    &&& shows(
        l[3],
        if idx + 1 == total {
            "└─"@
        } else {
            "├─"@
        },
        spec_tone(Tone::Separator),
    )
    &&& shows(l[4], " "@, spec_tone(Tone::Plain))
    &&& shows(l[5], svc.name@, spec_tone(Tone::Secondary))
    &&& shows(
        l[6],
        spec_repeat("."@, service_dots(key_width, byte_len(svc.name@))),
        spec_tone(Tone::Separator),
    )
    &&& shows(l[7], ":"@, spec_tone(Tone::Separator))
    &&& shows(l[8], " "@, spec_tone(Tone::Plain))
    &&& l[9].style == spec_tone(Tone::TextDefault)
    &&& l[9].content is Text
    &&& is_ports_text(l[9].content->Text_0@, svc.local_ports@)
}

/// Whether every service name of the list fits the width arithmetic.
pub open spec fn names_fit(key_width: usize, svcs: Seq<Service>) -> bool {
    forall|i: int| 0 <= i < svcs.len() ==> dots_fit(key_width, byte_len(#[trigger] svcs[i].name@))
}

/// Whether `lines` are the category of `svcs` labelled `label`, with
/// branch `branch` and vertical bar `vertical`.
pub open spec fn is_category(
    lines: Seq<Vec<Span>>,
    key_width: usize,
    svcs: Seq<Service>,
    label: Seq<char>,
    branch: Seq<char>,
    vertical: Seq<char>,
) -> bool {
    &&& lines.len() == 1 + svcs.len()
    &&& lines[0]@.len() == 4
    &&& shows(lines[0]@[0], " "@, spec_tone(Tone::Plain))
    &&& shows(lines[0]@[1], branch, spec_tone(Tone::Separator))
    &&& shows(lines[0]@[2], " "@, spec_tone(Tone::Plain))
    &&& shows(lines[0]@[3], label, spec_tone(Tone::Primary))
    &&& forall|i: int|
        0 <= i < svcs.len() ==> is_service_line(
            #[trigger] lines[1 + i]@,
            key_width,
            svcs[i],
            i,
            svcs.len() as int,
            vertical,
        )
}

/// Whether `lines` show a group: its address in brackets, then its TCP
/// services (when any) and its UDP services (when any).
pub open spec fn is_group_lines(lines: Seq<Vec<Span>>, key_width: usize, g: IpServiceGroup) -> bool {
    let nt = g.tcp_services@.len();
    let nu = g.udp_services@.len();
    let t_len: int = if nt > 0 {
        1 + nt as int
    } else {
        0
    };
    let u_len: int = if nu > 0 {
        1 + nu as int
    } else {
        0
    };
    let ip_tone = match g.ip_addr {
        IpAddr::V4(_) => Tone::Ipv4Addr,
        IpAddr::V6(_) => Tone::Ipv6Addr,
    };
    &&& lines.len() == 1 + t_len + u_len
    &&& lines[0]@.len() == 3
    &&& shows(lines[0]@[0], "["@, spec_tone(Tone::Separator))
    &&& shows(lines[0]@[1], spec_ip_text(g.ip_addr), spec_tone(ip_tone))
    &&& shows(lines[0]@[2], "]"@, spec_tone(Tone::Separator))
    &&& nt > 0 ==> is_category(
        lines.subrange(1, 1 + t_len),
        key_width,
        g.tcp_services@,
        "TCP"@,
        if nu > 0 {
            "├─"@
        } else {
            "└─"@
        },
        if nu > 0 {
            "│"@
        } else {
            " "@
        },
    )
    &&& nu > 0 ==> is_category(
        lines.subrange(1 + t_len, 1 + t_len + u_len),
        key_width,
        g.udp_services@,
        "UDP"@,
        "└─"@,
        " "@,
    )
}

/// Appends `more` to `lines`.
fn append_lines(lines: &mut Vec<Vec<Span>>, more: Vec<Vec<Span>>)
    ensures
        final(lines)@ == old(lines)@ + more@,
{
    let mut more = more;
    lines.append(&mut more);
}

impl InfoPrinter {
    /// A layout whose key column fits the longest service name with six
    /// columns to spare, and is at least 10 wide.
    pub fn new(services: &Vec<IpServiceGroup>) -> (p: InfoPrinter)
        ensures
            p.key_width == if max_group_name_len(services@) + 6 > usize::MAX {
                usize::MAX as int
            } else if max_group_name_len(services@) + 6 > 10 {
                max_group_name_len(services@) + 6
            } else {
                10
            },
            p.key_width >= 10,
            forall|g: int, k: int|
                0 <= g < services@.len() && 0 <= k < services@[g].tcp_services@.len() ==> p.key_width
                    >= byte_len(#[trigger] services@[g].tcp_services@[k].name@) + 6 || p.key_width
                    == usize::MAX,
            forall|g: int, k: int|
                0 <= g < services@.len() && 0 <= k < services@[g].udp_services@.len() ==> p.key_width
                    >= byte_len(#[trigger] services@[g].udp_services@[k].name@) + 6 || p.key_width
                    == usize::MAX,
            p.key_width == 10 || p.key_width == usize::MAX || some_name_has_len(
                services@,
                p.key_width - 6,
            ),
    {
        proof {
            lemma_max_group_name_len(services@);
        }
        let mut longest: usize = 0;
        let mut i: usize = 0;
        while i < services.len()
            invariant
                i <= services@.len(),
                longest == max_group_name_len(services@.take(i as int)),
            decreases services@.len() - i,
        {
            assert(services@.take(i + 1).drop_last() =~= services@.take(i as int));
            let a = longest_name(&services[i].tcp_services);
            let b = longest_name(&services[i].udp_services);
            let m = if a > b {
                a
            } else {
                b
            };
            if m > longest {
                longest = m;
            }
            i = i + 1;
        }
        assert(services@.take(services@.len() as int) =~= services@);
        let w = longest.saturating_add(6);
        InfoPrinter { key_width: if w > 10 {
            w
        } else {
            10
        } }
    }

    /// A key/value line with the key padded with dots to the key column.
    pub fn aligned_line(&self, key: &str, value: Span) -> (l: Vec<Span>)
        ensures
            is_aligned_line(l@, self.key_width, key@, value),
    {
        let dots_count = self.key_width.saturating_add(1).saturating_sub(key.len());
        let mut l: Vec<Span> = Vec::new();
        l.push(lit_span(">", tone(Tone::Separator)));
        l.push(lit_span(" ", tone(Tone::Plain)));
        l.push(lit_span(key, tone(Tone::Primary)));
        l.push(text_span(repeat_text(".", dots_count), tone(Tone::Separator)));
        l.push(lit_span(":", tone(Tone::Separator)));
        l.push(lit_span(" ", tone(Tone::Plain)));
        l.push(value);
        l
    }

    /// The "about" lines: version, author, e-mail, license and repository.
    pub fn print_about(&self, version: &str) -> (lines: Vec<Vec<Span>>)
        ensures
            lines@.len() == 5,
            is_aligned_line(lines@[0]@, self.key_width, "Version"@, lines@[0]@[6]),
            shows(lines@[0]@[6], version@, spec_tone(Tone::TextDefault)),
            is_aligned_line(lines@[1]@, self.key_width, "Author"@, lines@[1]@[6]),
            shows(lines@[1]@[6], "hollowpointer"@, spec_tone(Tone::TextDefault)),
            is_aligned_line(lines@[2]@, self.key_width, "E-Mail"@, lines@[2]@[6]),
            shows(lines@[2]@[6], "hollowpointer@pm.me"@, spec_tone(Tone::TextDefault)),
            is_aligned_line(lines@[3]@, self.key_width, "License"@, lines@[3]@[6]),
            shows(lines@[3]@[6], "MPL-2.0"@, spec_tone(Tone::TextDefault)),
            is_aligned_line(lines@[4]@, self.key_width, "Repository"@, lines@[4]@[6]),
            shows(
                lines@[4]@[6],
                "https://github.com/hollowpointer/zond"@,
                spec_tone(Tone::TextDefault),
            ),
    {
        let mut lines: Vec<Vec<Span>> = Vec::new();
        lines.push(self.aligned_line("Version", lit_span(version, tone(Tone::TextDefault))));
        lines.push(self.aligned_line("Author", lit_span("hollowpointer", tone(Tone::TextDefault))));
        lines.push(
            self.aligned_line("E-Mail", lit_span("hollowpointer@pm.me", tone(Tone::TextDefault))),
        );
        lines.push(self.aligned_line("License", lit_span("MPL-2.0", tone(Tone::TextDefault))));
        lines.push(
            self.aligned_line(
                "Repository",
                lit_span("https://github.com/hollowpointer/zond", tone(Tone::TextDefault)),
            ),
        );
        lines
    }

    /// The "local system" section: the host name, the operating system and
    /// its release, and the user when one is known.
    pub fn print_system(&self, hostname: &str, os_name: &str, release: &str, user: Option<&str>) -> (lines: Vec<Vec<Span>>)
        ensures
            lines@.len() == if user is Some {
                3int
            } else {
                2int
            },
            is_aligned_line(lines@[0]@, self.key_width, "Hostname"@, lines@[0]@[6]),
            shows(lines@[0]@[6], hostname@, spec_tone(Tone::TextDefault)),
            is_aligned_line(lines@[1]@, self.key_width, "OS"@, lines@[1]@[6]),
            shows(lines@[1]@[6], os_name@ + " "@ + release@, spec_tone(Tone::TextDefault)),
            user matches Some(u) ==> is_aligned_line(lines@[2]@, self.key_width, "User"@, lines@[2]@[6])
                && shows(lines@[2]@[6], u@, spec_tone(Tone::TextDefault)),
    {
        let mut lines: Vec<Vec<Span>> = Vec::new();
        lines.push(self.aligned_line("Hostname", lit_span(hostname, tone(Tone::TextDefault))));
        let mut os = os_name.to_owned();
        os.append(" ");
        os.append(release);
        lines.push(self.aligned_line("OS", text_span(os, tone(Tone::TextDefault))));
        if let Some(u) = user {
            lines.push(self.aligned_line("User", lit_span(u, tone(Tone::TextDefault))));
        }
        lines
    }

    /// The firewall status line, and the warning when no firewall was found.
    pub fn print_firewall_status(&self, status: FirewallStatus) -> (r: FirewallReport)
        ensures
            is_aligned_line(r.line@, self.key_width, "Status"@, r.line@[6]),
            shows(r.line@[6], spec_firewall_text(status).0, spec_firewall_text(status).1),
            r.warning is Some <==> status == FirewallStatus::NotDetected,
            r.warning matches Some(w) ==> w@.len() == 1 && shows(
                w@[0],
                "No active firewall detected. Services may be exposed to public."@,
                spec_tone(Tone::TextDefault),
            ),
    {
        let value = match status {
            FirewallStatus::Active => lit_span("active", bold(Tone::Green)),
            FirewallStatus::Inactive => lit_span("inactive", bold(Tone::Red)),
            FirewallStatus::NotDetected => lit_span("inactive (not detected)", tone(Tone::Yellow)),
        };
        let line = self.aligned_line("Status", value);
        let warning = if status == FirewallStatus::NotDetected {
            let mut w: Vec<Span> = Vec::new();
            w.push(
                lit_span(
                    "No active firewall detected. Services may be exposed to public.",
                    tone(Tone::TextDefault),
                ),
            );
            Some(w)
        } else {
            None
        };
        FirewallReport { line, warning }
    }

    /// The line for one service.
    pub fn print_service_line(&self, service: &Service, idx: usize, total: usize, vertical_branch: &str) -> (l: Vec<Span>)
        requires
            dots_fit(self.key_width, byte_len(service.name@)),
        ensures
            is_service_line(l@, self.key_width, *service, idx as int, total as int, vertical_branch@),
    {
        let is_last = idx < usize::MAX && idx + 1 == total;
        let branch = if is_last {
            "└─"
        } else {
            "├─"
        };
        let name_len = service.name.as_str().len();
        let d: i32 = (self.key_width as i32) - (name_len as i32) - 5;
        let dashes_count: usize = if d > 0 {
            d as usize
        } else {
            0
        };
        let ports = self.format_ports(&service.local_ports);
        let mut l: Vec<Span> = Vec::new();
        l.push(lit_span(" ", tone(Tone::Plain)));
        l.push(lit_span(vertical_branch, tone(Tone::Separator)));
        l.push(lit_span("   ", tone(Tone::Plain)));
        l.push(lit_span(branch, tone(Tone::Separator)));
        l.push(lit_span(" ", tone(Tone::Plain)));
        l.push(lit_span(service.name.as_str(), tone(Tone::Secondary)));
        l.push(text_span(repeat_text(".", dashes_count), tone(Tone::Separator)));
        l.push(lit_span(":", tone(Tone::Separator)));
        l.push(lit_span(" ", tone(Tone::Plain)));
        l.push(text_span(ports, tone(Tone::TextDefault)));
        l
    }

    /// A category of services: a `<branch> <label>` line, then one line per
    /// service.
    pub fn print_service_category(
        &self,
        services: &Vec<Service>,
        label: &str,
        branch_char: &str,
        vertical_char: &str,
    ) -> (lines: Vec<Vec<Span>>)
        requires
            names_fit(self.key_width, services@),
        ensures
            is_category(lines@, self.key_width, services@, label@, branch_char@, vertical_char@),
    {
        let mut head: Vec<Span> = Vec::new();
        head.push(lit_span(" ", tone(Tone::Plain)));
        head.push(lit_span(branch_char, tone(Tone::Separator)));
        head.push(lit_span(" ", tone(Tone::Plain)));
        head.push(lit_span(label, tone(Tone::Primary)));
        let mut lines: Vec<Vec<Span>> = Vec::new();
        lines.push(head);
        let n = services.len();
        let mut i: usize = 0;
        while i < n
            invariant
                n == services@.len(),
                i <= n,
                names_fit(self.key_width, services@),
                lines@.len() == 1 + i,
                lines@[0]@.len() == 4,
                shows(lines@[0]@[0], " "@, spec_tone(Tone::Plain)),
                shows(lines@[0]@[1], branch_char@, spec_tone(Tone::Separator)),
                shows(lines@[0]@[2], " "@, spec_tone(Tone::Plain)),
                shows(lines@[0]@[3], label@, spec_tone(Tone::Primary)),
                forall|k: int|
                    0 <= k < i ==> is_service_line(
                        #[trigger] lines@[1 + k]@,
                        self.key_width,
                        services@[k],
                        k,
                        n as int,
                        vertical_char@,
                    ),
            decreases n - i,
        {
            let l = self.print_service_line(&services[i], i, n, vertical_char);
            lines.push(l);
            i = i + 1;
        }
        lines
    }

    /// The lines for one group of services.
    pub fn print_service_group(&self, group: &IpServiceGroup) -> (lines: Vec<Vec<Span>>)
        requires
            names_fit(self.key_width, group.tcp_services@),
            names_fit(self.key_width, group.udp_services@),
        ensures
            is_group_lines(lines@, self.key_width, *group),
    {
        let ip_tone = match &group.ip_addr {
            IpAddr::V4(_) => Tone::Ipv4Addr,
            IpAddr::V6(_) => Tone::Ipv6Addr,
        };
        let mut head: Vec<Span> = Vec::new();
        head.push(lit_span("[", tone(Tone::Separator)));
        head.push(text_span(ip_text(&group.ip_addr), tone(ip_tone)));
        head.push(lit_span("]", tone(Tone::Separator)));
        let mut lines: Vec<Vec<Span>> = Vec::new();
        lines.push(head);
        let ghost head_line = lines@[0];
        let has_tcp = group.tcp_services.len() > 0;
        let has_udp = group.udp_services.len() > 0;
        let ghost mut tcp_lines: Seq<Vec<Span>> = Seq::empty();
        if has_tcp {
            let branch = if has_udp {
                "├─"
            } else {
                "└─"
            };
            let vertical = if has_udp {
                "│"
            } else {
                " "
            };
            let cat = self.print_service_category(&group.tcp_services, "TCP", branch, vertical);
            proof {
                tcp_lines = cat@;
            }
            append_lines(&mut lines, cat);
        }
        let ghost mut udp_lines: Seq<Vec<Span>> = Seq::empty();
        if has_udp {
            let cat = self.print_service_category(&group.udp_services, "UDP", "└─", " ");
            proof {
                udp_lines = cat@;
            }
            append_lines(&mut lines, cat);
        }
        assert(lines@ =~= seq![head_line] + tcp_lines + udp_lines);
        assert(lines@.subrange(1, 1 + tcp_lines.len() as int) =~= tcp_lines);
        assert(lines@.subrange(1 + tcp_lines.len() as int, 1 + tcp_lines.len() as int + udp_lines.len() as int)
            =~= udp_lines);
        lines
    }

    /// The local services, one block per group: nothing for a group without
    /// services; otherwise the group's lines, followed by a blank line unless
    /// it is the last group.
    pub fn print_local_services(&self, groups: &Vec<IpServiceGroup>) -> (blocks: Vec<Vec<Vec<Span>>>)
        requires
            forall|i: int|
                0 <= i < groups@.len() ==> names_fit(self.key_width, #[trigger] groups@[i].tcp_services@)
                    && names_fit(self.key_width, groups@[i].udp_services@),
        ensures
            blocks@.len() == groups@.len(),
            forall|k: int|
                0 <= k < groups@.len() ==> {
                    let b = #[trigger] blocks@[k]@;
                    let g = groups@[k];
                    let empty = g.tcp_services@.len() == 0 && g.udp_services@.len() == 0;
                    let blank: int = if k + 1 != groups@.len() {
                        1
                    } else {
                        0
                    };
                    &&& empty ==> b.len() == 0
                    &&& !empty ==> b.len() > blank && is_group_lines(
                        b.take(b.len() - blank),
                        self.key_width,
                        g,
                    )
                    &&& !empty && blank == 1 ==> b.last()@.len() == 0
                },
    {
        let n = groups.len();
        let mut blocks: Vec<Vec<Vec<Span>>> = Vec::new();
        let mut idx: usize = 0;
        while idx < n
            invariant
                n == groups@.len(),
                idx <= n,
                blocks@.len() == idx,
                forall|i: int|
                    0 <= i < groups@.len() ==> names_fit(
                        self.key_width,
                        #[trigger] groups@[i].tcp_services@,
                    ) && names_fit(self.key_width, groups@[i].udp_services@),
                forall|k: int|
                    0 <= k < idx ==> {
                        let b = #[trigger] blocks@[k]@;
                        let g = groups@[k];
                        let empty = g.tcp_services@.len() == 0 && g.udp_services@.len() == 0;
                        let blank: int = if k + 1 != n {
                            1
                        } else {
                            0
                        };
                        &&& empty ==> b.len() == 0
                        &&& !empty ==> b.len() > blank && is_group_lines(
                            b.take(b.len() - blank),
                            self.key_width,
                            g,
                        )
                        &&& !empty && blank == 1 ==> b.last()@.len() == 0
                    },
            decreases n - idx,
        {
            let group = &groups[idx];
            let mut block: Vec<Vec<Span>> = Vec::new();
            if group.tcp_services.len() > 0 || group.udp_services.len() > 0 {
                block = self.print_service_group(group);
                let ghost body = block@;
                if idx + 1 != n {
                    block.push(Vec::new());
                    assert(block@.take(block@.len() - 1) =~= body);
                } else {
                    assert(block@.take(block@.len() - 0) =~= body);
                }
            }
            blocks.push(block);
            idx = idx + 1;
        }
        blocks
    }
}

} // verus!
