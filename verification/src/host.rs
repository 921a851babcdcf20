//! A discovered host: its model, the order hosts are listed in, and the
//! lines that show it.

use vstd::prelude::*;
use crate::format::{
    hostname_to_detail, ip_to_detail, is_hostname_detail, is_ip_detail, is_mac_detail,
    is_vendor_detail, mac_to_detail, others, vendor_to_detail,
};
use crate::layout::{as_tree, is_printable_ascii, is_tree_line, Detail, TOTAL_WIDTH};
use crate::net::{ip_key, ip_lt, push_ip_text, spec_ip_text, IpAddr, MacAddr};
use crate::style::{bold, lit_span, shows, spec_tone, span_text, text_span, tone, Span, Style, Tone};
use crate::text::{decimal_text, push_digits, push_repeat, repeat_text, spec_decimal, spec_repeat};

verus! {

/// The transport protocol of a port.
#[derive(Clone, Copy, PartialEq, Eq, Structural, Debug)]
pub enum Protocol {
    Tcp,
    Udp,
    Sctp,
}

/// What a probe learned about a port.
#[derive(Clone, Copy, PartialEq, Eq, Structural, Debug)]
pub enum PortState {
    Open,
    Filtered,
    OpenFiltered,
    Closed,
    /// Any state the report does not name.
    Unknown,
}

/// A probed port.
#[derive(Debug)]
pub struct Port {
    pub number: u16,
    pub protocol: Protocol,
    pub state: PortState,
    pub service_name: Option<String>,
}

/// Round trip times measured for a host, in nanoseconds, with the tolerance
/// within which their spread counts as consistent.
#[derive(Clone, Copy, PartialEq, Eq, Structural, Debug)]
pub struct Rtt {
    pub min_ns: u128,
    pub max_ns: u128,
    pub avg_ns: u128,
    pub tolerance_ns: u128,
}

/// A discovered host.
#[derive(Debug)]
pub struct Host {
    pub primary_ip: IpAddr,
    /// All addresses of the host, in the order the scanner keeps them.
    pub ips: Vec<IpAddr>,
    pub mac: Option<MacAddr>,
    pub vendor: Option<String>,
    pub hostname: Option<String>,
    pub rtt: Option<Rtt>,
    pub ports: Vec<Port>,
}

/// Columns that `s` takes on a terminal (`UnicodeWidthStr::width`).
pub uninterp spec fn spec_str_width(s: Seq<char>) -> usize;

/// Measures the terminal width of a text with `unicode_width`'s
/// `UnicodeWidthStr::width`; the width is named, and printable ASCII text
/// takes one column a character.
#[verifier::external_body]
pub(crate) fn str_width(s: &str) -> (w: usize)
    ensures
        w == spec_str_width(s@),
        is_printable_ascii(s@) ==> w == s@.len(),
{
    unicode_width::UnicodeWidthStr::width(s)
}

/// Whole milliseconds in a duration of `ns` nanoseconds (`Duration::as_millis`).
pub open spec fn millis(ns: u128) -> nat {
    (ns / 1_000_000) as nat
}

/// The round trip time text: empty without measurements; the single value
/// when minimum and maximum agree; `~` and the average when their spread is
/// below the tolerance; the range from minimum to maximum otherwise.
pub open spec fn spec_rtt_text(rtt: Option<Rtt>) -> Seq<char> {
    match rtt {
        None => Seq::empty(),
        Some(r) => {
            if r.min_ns == r.max_ns {
                "⌛ "@ + spec_decimal(millis(r.min_ns)) + "ms"@
            } else {
                let spread: int = if r.max_ns > r.min_ns { r.max_ns - r.min_ns } else { 0 };
                if r.tolerance_ns > spread {
                    "⌛ ~"@ + spec_decimal(millis(r.avg_ns)) + "ms"@
                } else {
                    "⌛ "@ + spec_decimal(millis(r.min_ns)) + "ms - "@ + spec_decimal(
                        millis(r.max_ns),
                    ) + "ms"@
                }
            }
        },
    }
}

/// The round trip time text of a host.
pub fn rtt_to_string(host: &Host) -> (r: String)
    ensures
        r@ == spec_rtt_text(host.rtt),
{
    match host.rtt {
        None => String::new(),
        Some(rtt) => {
            if rtt.min_ns == rtt.max_ns {
                let mut s = "⌛ ".to_owned();
                push_digits(&mut s, rtt.min_ns / 1_000_000, 10);
                s.append("ms");
                return s;
            }
            let spread = rtt.max_ns.saturating_sub(rtt.min_ns);
            if rtt.tolerance_ns > spread {
                let mut s = "⌛ ~".to_owned();
                push_digits(&mut s, rtt.avg_ns / 1_000_000, 10);
                s.append("ms");
                return s;
            }
            let mut s = "⌛ ".to_owned();
            push_digits(&mut s, rtt.min_ns / 1_000_000, 10);
            s.append("ms - ");
            push_digits(&mut s, rtt.max_ns / 1_000_000, 10);
            s.append("ms");
            s
        },
    }
}

/// `a - b`, or 0 when `b` is larger.
pub open spec fn sat_sub(a: int, b: int) -> nat {
    if a > b {
        (a - b) as nat
    } else {
        0
    }
}

/// `a + b`, or `usize::MAX` when the sum does not fit.
pub open spec fn sat_add(a: int, b: int) -> int {
    if a + b > usize::MAX {
        usize::MAX as int
    } else {
        a + b
    }
}

/// The columns of a host's header line reserved for the round trip time.
pub open spec fn rtt_block_width() -> int {
    20
}

/// The left part of a host's header line: `[<idx>] <primary ip>`.
pub open spec fn head_left(idx: usize, ip: IpAddr) -> Seq<char> {
    "["@ + spec_decimal(idx as nat) + "] "@ + spec_ip_text(ip)
}

/// The right part of a host's header line: the round trip time text,
/// right-aligned in its block.
pub open spec fn head_right(rtt: Seq<char>) -> Seq<char> {
    spec_repeat(" "@, sat_sub(rtt_block_width(), spec_str_width(rtt) as int)) + rtt
}

/// The spaces between the two parts of a host's header line.
pub open spec fn head_padding(idx: usize, ip: IpAddr) -> nat {
    let used = sat_add(spec_str_width(head_left(idx, ip)) as int, rtt_block_width());
    sat_sub(TOTAL_WIDTH as int, sat_add(used, 1))
}

/// Whether `l` is the header line of host `h` at index `idx`.
pub open spec fn is_host_head(l: Seq<Span>, idx: usize, h: Host) -> bool {
    &&& l.len() == 7
    &&& shows(l[0], "["@, spec_tone(Tone::Separator))
    &&& shows(l[1], spec_decimal(idx as nat), spec_tone(Tone::Accent))
    &&& shows(l[2], "]"@, spec_tone(Tone::Separator))
    &&& shows(l[3], " "@, spec_tone(Tone::Plain))
    &&& shows(l[4], spec_ip_text(h.primary_ip), spec_tone(Tone::Primary))
    &&& shows(l[5], spec_repeat(" "@, head_padding(idx, h.primary_ip)), spec_tone(Tone::Plain))
    &&& shows(l[6], head_right(spec_rtt_text(h.rtt)), spec_tone(Tone::Secondary))
}

/// The header line of a host: its index, primary address and round trip
/// time, the time right-aligned to the report width.
pub fn print_host_head(idx: usize, host: &Host) -> (l: Vec<Span>)
    ensures
        is_host_head(l@, idx, *host),
{
    let rtt_string = rtt_to_string(host);
    let rtt_width = str_width(rtt_string.as_str());
    let block_width: usize = 20;
    let local_pad = block_width.saturating_sub(rtt_width);
    let mut right_part = repeat_text(" ", local_pad);
    right_part.append(rtt_string.as_str());
    let mut left_part = "[".to_owned();
    push_digits(&mut left_part, idx as u128, 10);
    left_part.append("] ");
    push_ip_text(&mut left_part, &host.primary_ip);
    let used_width = str_width(left_part.as_str()).saturating_add(block_width);
    let padding_len = TOTAL_WIDTH.saturating_sub(used_width.saturating_add(1));
    let mut ip_str = String::new();
    push_ip_text(&mut ip_str, &host.primary_ip);
    let mut l: Vec<Span> = Vec::new();
    l.push(lit_span("[", tone(Tone::Separator)));
    l.push(text_span(decimal_text(idx as u128), tone(Tone::Accent)));
    l.push(lit_span("]", tone(Tone::Separator)));
    l.push(lit_span(" ", tone(Tone::Plain)));
    l.push(text_span(ip_str, tone(Tone::Primary)));
    l.push(text_span(repeat_text(" ", padding_len), tone(Tone::Plain)));
    l.push(text_span(right_part, tone(Tone::Secondary)));
    l
}

/// A bold style of the given tone.
pub open spec fn spec_bold(t: Tone) -> Style {
    Style { tone: t, bold: true, italic: false, dimmed: false }
}

/// The number of open ports.
pub open spec fn count_open(ps: Seq<Port>) -> nat
    decreases ps.len(),
{
    if ps.len() == 0 {
        0
    } else {
        count_open(ps.drop_last()) + if ps.last().state == PortState::Open {
            1nat
        } else {
            0nat
        }
    }
}

/// The number of filtered (or open-or-filtered) ports.
pub open spec fn count_filtered(ps: Seq<Port>) -> nat
    decreases ps.len(),
{
    if ps.len() == 0 {
        0
    } else {
        count_filtered(ps.drop_last()) + if ps.last().state == PortState::Filtered
            || ps.last().state == PortState::OpenFiltered {
            1nat
        } else {
            0nat
        }
    }
}

/// The counts of open and of filtered ports add up over a split of the
/// list: the ports of `a + b` are counted as those of `a` plus those of `b`.
pub proof fn lemma_port_counts_add(a: Seq<Port>, b: Seq<Port>)
    ensures
        count_open(a + b) == count_open(a) + count_open(b),
        count_filtered(a + b) == count_filtered(a) + count_filtered(b),
    decreases b.len(),
{
    if b.len() == 0 {
        assert(a + b =~= a);
    } else {
        lemma_port_counts_add(a, b.drop_last());
        assert((a + b).drop_last() =~= a + b.drop_last());
        assert((a + b).last() == b.last());
    }
}

/// A single port counts once as open when it is open, once as filtered when
/// it is filtered or open|filtered, and not at all otherwise.
pub proof fn lemma_port_counts_single(p: Port)
    ensures
        count_open(seq![p]) == if p.state == PortState::Open {
            1int
        } else {
            0int
        },
        count_filtered(seq![p]) == if p.state == PortState::Filtered || p.state == PortState::OpenFiltered {
            1int
        } else {
            0int
        },
{
    let s = seq![p];
    assert(s.drop_last() =~= Seq::<Port>::empty());
    assert(s.last() == p);
    assert(count_open(s.drop_last()) == 0);
    assert(count_filtered(s.drop_last()) == 0);
}

/// The open count is the number of open ports: a list whose ports are all
/// open counts all of them, and one with none open counts none.
pub proof fn lemma_count_open_all_or_none(ps: Seq<Port>)
    ensures
        (forall|i: int| 0 <= i < ps.len() ==> #[trigger] ps[i].state == PortState::Open) ==> count_open(ps)
            == ps.len(),
        (forall|i: int| 0 <= i < ps.len() ==> #[trigger] ps[i].state != PortState::Open) ==> count_open(ps)
            == 0,
    decreases ps.len(),
{
    if ps.len() > 0 {
        lemma_count_open_all_or_none(ps.drop_last());
        if forall|i: int| 0 <= i < ps.len() ==> #[trigger] ps[i].state == PortState::Open {
            assert forall|i: int| 0 <= i < ps.drop_last().len() implies #[trigger] ps.drop_last()[i].state
                == PortState::Open by {
                assert(ps.drop_last()[i] == ps[i]);
            }
            assert(ps[ps.len() - 1].state == PortState::Open);
        }
        if forall|i: int| 0 <= i < ps.len() ==> #[trigger] ps[i].state != PortState::Open {
            assert forall|i: int| 0 <= i < ps.drop_last().len() implies #[trigger] ps.drop_last()[i].state
                != PortState::Open by {
                assert(ps.drop_last()[i] == ps[i]);
            }
            assert(ps[ps.len() - 1].state != PortState::Open);
        }
    }
}

/// Counts never exceed the number of ports.
pub proof fn lemma_counts_bounded(ps: Seq<Port>)
    ensures
        count_open(ps) <= ps.len(),
        count_filtered(ps) <= ps.len(),
    decreases ps.len(),
{
    if ps.len() > 0 {
        lemma_counts_bounded(ps.drop_last());
    }
}

/// Whether `spans` summarize `open` open and `filtered` filtered ports:
/// "N OPEN" and "N FILTERED" for the nonzero counts, joined by " / ", or
/// "ALL CHECKS CLOSED".
pub open spec fn is_stats(spans: Seq<Span>, open: nat, filtered: nat) -> bool {
    if open > 0 && filtered > 0 {
        &&& spans.len() == 3
        &&& shows(spans[0], spec_decimal(open) + " OPEN"@, spec_bold(Tone::Green))
        &&& shows(spans[1], "  /  "@, spec_bold(Tone::BrightBlack))
        &&& shows(spans[2], spec_decimal(filtered) + " FILTERED"@, spec_bold(Tone::Cyan))
    } else if open > 0 {
        &&& spans.len() == 1
        &&& shows(spans[0], spec_decimal(open) + " OPEN"@, spec_bold(Tone::Green))
    } else if filtered > 0 {
        &&& spans.len() == 1
        &&& shows(spans[0], spec_decimal(filtered) + " FILTERED"@, spec_bold(Tone::Cyan))
    } else {
        &&& spans.len() == 1
        &&& shows(
            spans[0],
            "ALL CHECKS CLOSED"@,
            Style { tone: Tone::Plain, bold: false, italic: false, dimmed: true },
        )
    }
}

/// Whether `l` is the services header line for `ports`.
pub open spec fn is_services_head(l: Seq<Span>, ports: Seq<Port>) -> bool {
    &&& l.len() >= 7
    &&& shows(l[0], " "@, spec_tone(Tone::Plain))
    &&& shows(l[1], "└─"@, spec_tone(Tone::BrightBlack))
    &&& shows(l[2], " "@, spec_tone(Tone::Plain))
    &&& shows(l[3], "SERVICES"@, spec_tone(Tone::TextDefault))
    &&& shows(l[4], ".."@, spec_tone(Tone::Separator))
    &&& shows(l[5], ":"@, spec_tone(Tone::Separator))
    &&& shows(l[6], " "@, spec_tone(Tone::Plain))
    &&& is_stats(l.skip(7), count_open(ports), count_filtered(ports))
}

/// The protocol's name.
pub open spec fn spec_proto_text(p: Protocol) -> Seq<char> {
    match p {
        Protocol::Tcp => "tcp"@,
        Protocol::Udp => "udp"@,
        Protocol::Sctp => "sctp"@,
    }
}

/// `<number>/<protocol>`, padded with spaces to nine characters.
pub open spec fn spec_port_spec(p: Port) -> Seq<char> {
    let t = spec_decimal(p.number as nat) + "/"@ + spec_proto_text(p.protocol);
    t + spec_repeat(" "@, sat_sub(9, t.len() as int))
}

/// The state's label and its color.
pub open spec fn spec_state_label(st: PortState) -> (Seq<char>, Tone) {
    match st {
        PortState::Open => ("OPEN   "@, Tone::Green),
        PortState::Filtered => ("FILTERED"@, Tone::Cyan),
        PortState::OpenFiltered => ("OPEN|FIL"@, Tone::Yellow),
        PortState::Closed => ("CLOSED "@, Tone::Red),
        PortState::Unknown => ("UNKNOWN"@, Tone::White),
    }
}

/// The service name, or "???" when unknown.
pub open spec fn spec_service_text(p: Port) -> Seq<char> {
    match p.service_name {
        Some(n) => n@,
        None => "???"@,
    }
}

/// The tree branch for entry `i` of `n`.
pub open spec fn spec_port_branch(i: int, n: int) -> Seq<char> {
    if i + 1 == n {
        "└─"@
    } else {
        "├─"@
    }
}

/// Whether `l` is the line for port `p`, entry `i` of `n`.
pub open spec fn is_port_line(l: Seq<Span>, p: Port, i: int, n: int) -> bool {
    &&& l.len() == 10
    &&& shows(l[0], "      "@, spec_tone(Tone::Plain))
    &&& shows(l[1], spec_port_branch(i, n), spec_tone(Tone::BrightBlack))
    &&& shows(l[2], " "@, spec_tone(Tone::Plain))
    &&& shows(l[3], spec_port_spec(p), spec_tone(Tone::Primary))
    &&& shows(l[4], " "@, spec_tone(Tone::Plain))
    &&& shows(l[5], "[ "@, spec_tone(Tone::Plain))
    &&& shows(l[6], spec_state_label(p.state).0, spec_tone(spec_state_label(p.state).1))
    &&& shows(l[7], " ]"@, spec_tone(Tone::Plain))
    &&& shows(l[8], "  "@, spec_tone(Tone::Plain))
    &&& shows(l[9], spec_service_text(p), spec_tone(Tone::TextDefault))
}

/// The line for one port.
fn port_line(p: &Port, i: usize, n: usize) -> (l: Vec<Span>)
    ensures
        is_port_line(l@, *p, i as int, n as int),
{
    let mut spec_text = decimal_text(p.number as u128);
    spec_text.append("/");
    let proto = match p.protocol {
        Protocol::Tcp => "tcp",
        Protocol::Udp => "udp",
        Protocol::Sctp => "sctp",
    };
    spec_text.append(proto);
    let ghost t = spec_text@;
    let pad = 9usize.saturating_sub(spec_text.unicode_len());
    push_repeat(&mut spec_text, " ", pad);
    let (label, color) = match p.state {
        PortState::Open => ("OPEN   ", Tone::Green),
        PortState::Filtered => ("FILTERED", Tone::Cyan),
        PortState::OpenFiltered => ("OPEN|FIL", Tone::Yellow),
        PortState::Closed => ("CLOSED ", Tone::Red),
        PortState::Unknown => ("UNKNOWN", Tone::White),
    };
    let svc = match &p.service_name {
        Some(name) => name.as_str(),
        None => "???",
    };
    let br = if i < usize::MAX && i + 1 == n {
        "└─"
    } else {
        "├─"
    };
    let mut l: Vec<Span> = Vec::new();
    l.push(lit_span("      ", tone(Tone::Plain)));
    l.push(lit_span(br, tone(Tone::BrightBlack)));
    l.push(lit_span(" ", tone(Tone::Plain)));
    l.push(text_span(spec_text, tone(Tone::Primary)));
    l.push(lit_span(" ", tone(Tone::Plain)));
    l.push(lit_span("[ ", tone(Tone::Plain)));
    l.push(lit_span(label, tone(color)));
    l.push(lit_span(" ]", tone(Tone::Plain)));
    l.push(lit_span("  ", tone(Tone::Plain)));
    l.push(lit_span(svc, tone(Tone::TextDefault)));
    l
}

/// The summary spans for the port counts.
fn stats_spans(open: usize, filtered: usize) -> (spans: Vec<Span>)
    ensures
        is_stats(spans@, open as nat, filtered as nat),
{
    let mut spans: Vec<Span> = Vec::new();
    if open > 0 {
        let mut t = decimal_text(open as u128);
        t.append(" OPEN");
        spans.push(text_span(t, bold(Tone::Green)));
    }
    if filtered > 0 {
        if open > 0 {
            spans.push(lit_span("  /  ", bold(Tone::BrightBlack)));
        }
        let mut t = decimal_text(filtered as u128);
        t.append(" FILTERED");
        spans.push(text_span(t, bold(Tone::Cyan)));
    }
    if open == 0 && filtered == 0 {
        spans.push(
            lit_span(
                "ALL CHECKS CLOSED",
                Style { tone: Tone::Plain, bold: false, italic: false, dimmed: true },
            ),
        );
    }
    spans
}

/// The lines that list a host's ports: a header with the counts of open and
/// filtered ports, then one line per port.
pub fn print_services(ports: &Vec<Port>) -> (lines: Vec<Vec<Span>>)
    ensures
        lines@.len() == ports@.len() + 1,
        is_services_head(lines@[0]@, ports@),
        forall|i: int|
            0 <= i < ports@.len() ==> is_port_line(
                #[trigger] lines@[i + 1]@,
                ports@[i],
                i,
                ports@.len() as int,
            ),
{
    let n = ports.len();
    let mut open_c: usize = 0;
    let mut filtered_c: usize = 0;
    let mut i: usize = 0;
    while i < n
        invariant
            n == ports@.len(),
            i <= n,
            open_c == count_open(ports@.take(i as int)),
            filtered_c == count_filtered(ports@.take(i as int)),
        decreases n - i,
    {
        proof {
            lemma_counts_bounded(ports@.take(i as int));
            assert(ports@.take(i + 1).drop_last() =~= ports@.take(i as int));
        }
        match ports[i].state {
            PortState::Open => open_c = open_c + 1,
            PortState::Filtered | PortState::OpenFiltered => filtered_c = filtered_c + 1,
            _ => {},
        }
        i = i + 1;
    }
    assert(ports@.take(n as int) =~= ports@);
    let mut head: Vec<Span> = Vec::new();
    head.push(lit_span(" ", tone(Tone::Plain)));
    head.push(lit_span("└─", tone(Tone::BrightBlack)));
    head.push(lit_span(" ", tone(Tone::Plain)));
    head.push(lit_span("SERVICES", tone(Tone::TextDefault)));
    head.push(lit_span("..", tone(Tone::Separator)));
    head.push(lit_span(":", tone(Tone::Separator)));
    head.push(lit_span(" ", tone(Tone::Plain)));
    let ghost prefix = head@;
    let mut stats = stats_spans(open_c, filtered_c);
    let ghost st = stats@;
    head.append(&mut stats);
    assert(head@.skip(7) =~= st);
    let mut lines: Vec<Vec<Span>> = Vec::new();
    lines.push(head);
    let mut k: usize = 0;
    while k < n
        invariant
            n == ports@.len(),
            k <= n,
            lines@.len() == k + 1,
            is_services_head(lines@[0]@, ports@),
            forall|j: int|
                0 <= j < k ==> is_port_line(#[trigger] lines@[j + 1]@, ports@[j], j, n as int),
        decreases n - k,
    {
        lines.push(port_line(&ports[k], k, n));
        k = k + 1;
    }
    lines
}

/// The number of details shown under a host.
pub open spec fn n_details(h: Host) -> nat {
    others(h.ips@, h.primary_ip).len() + (if h.mac is Some {
        1nat
    } else {
        0nat
    }) + (if h.vendor is Some {
        1nat
    } else {
        0nat
    }) + (if h.hostname is Some {
        1nat
    } else {
        0nat
    })
}

/// Whether a detail (key text and value span) is detail `k` of host `h`: its
/// other addresses first, then its hardware address, vendor and host name,
/// each when known.
pub open spec fn detail_matches(key: Seq<char>, value: Seq<Span>, h: Host, redact: bool, k: int) -> bool {
    let o = others(h.ips@, h.primary_ip);
    let m: int = if h.mac is Some {
        1
    } else {
        0
    };
    let v: int = if h.vendor is Some {
        1
    } else {
        0
    };
    if k < o.len() {
        is_ip_detail(key, value, o[k], redact)
    } else if h.mac is Some && k == o.len() {
        is_mac_detail(key, value, h.mac->0, redact)
    } else if h.vendor is Some && k == o.len() + m {
        is_vendor_detail(key, value, h.vendor->0@)
    } else {
        &&& h.hostname is Some
        &&& k == o.len() + m + v
        &&& is_hostname_detail(key, value, h.hostname->0@, redact)
    }
}

/// Whether `lines` show host `h` at index `idx`: its header line, the tree
/// of its details, and, when it has ports, the list of its services.
pub open spec fn is_host_block(lines: Seq<Vec<Span>>, h: Host, idx: usize, redact: bool) -> bool {
    let nd = n_details(h);
    let np = h.ports@.len();
    &&& lines.len() == 1 + nd + if np > 0 {
        np + 1
    } else {
        0
    }
    &&& is_host_head(lines[0]@, idx, h)
    &&& forall|k: int|
        0 <= k < nd ==> {
            let l = #[trigger] lines[1 + k]@;
            &&& is_tree_line(l, k, nd as int, span_text(l[3]), l.skip(7))
            &&& detail_matches(span_text(l[3]), l.skip(7), h, redact, k)
        }
    &&& np > 0 ==> is_services_head(lines[1 + nd as int]@, h.ports@)
    &&& forall|i: int|
        0 <= i < np ==> is_port_line(#[trigger] lines[2 + nd + i]@, h.ports@[i], i, np as int)
}

impl Host {
    /// The lines that show this host at position `index` of the report.
    pub fn print(&self, index: usize, redact: bool) -> (lines: Vec<Vec<Span>>)
        ensures
            is_host_block(lines@, *self, index, redact),
    {
        let ghost h = *self;
        let ghost o = others(self.ips@, self.primary_ip);
        let ghost nd = n_details(h);
        let mut details = ip_to_detail(self, redact);
        let ghost n_ips = details@.len();
        if let Some(mac_detail) = mac_to_detail(self.mac, redact) {
            details.push(mac_detail);
        }
        let ghost n_mac = details@.len();
        let vendor = match &self.vendor {
            Some(v) => vendor_to_detail(Some(v.as_str())),
            None => vendor_to_detail(None),
        };
        if let Some(vendor_detail) = vendor {
            details.push(vendor_detail);
        }
        let ghost n_vendor = details@.len();
        let hostname = match &self.hostname {
            Some(v) => hostname_to_detail(Some(v.as_str()), redact),
            None => hostname_to_detail(None, redact),
        };
        if let Some(hostname_detail) = hostname {
            details.push(hostname_detail);
        }
        assert(details@.len() == nd);
        assert forall|k: int| 0 <= k < nd implies detail_matches(
            #[trigger] details@[k].key@,
            details@[k].value@,
            h,
            redact,
            k,
        ) by {
            if k < n_ips {
            } else if k < n_mac {
            } else if k < n_vendor {
            }
        }
        let ghost dv = details@;
        let tree = as_tree(details);
        let mut lines: Vec<Vec<Span>> = Vec::new();
        lines.push(print_host_head(index, self));
        let n = tree.len();
        let mut i: usize = 0;
        let mut rest = tree;
        let ghost tv = rest@;
        while i < n
            invariant
                n == tv.len(),
                n == nd,
                i <= n,
                rest@ == tv.skip(i as int),
                lines@.len() == 1 + i,
                is_host_head(lines@[0]@, index, h),
                forall|k: int|
                    0 <= k < nd ==> is_tree_line(
                        #[trigger] tv[k]@,
                        k,
                        nd as int,
                        dv[k].key@,
                        dv[k].value@,
                    ),
                forall|k: int|
                    0 <= k < nd ==> detail_matches(#[trigger] dv[k].key@, dv[k].value@, h, redact, k),
                forall|k: int| 0 <= k < i ==> #[trigger] lines@[1 + k] == tv[k],
            decreases n - i,
        {
            let l = rest.remove(0);
            lines.push(l);
            i = i + 1;
            assert(rest@ =~= tv.skip(i as int));
        }
        if self.ports.len() > 0 {
            let services = print_services(&self.ports);
            let m = services.len();
            let ghost sv = services@;
            let mut rest2 = services;
            let mut j: usize = 0;
            while j < m
                invariant
                    m == sv.len(),
                    m == self.ports@.len() + 1,
                    nd == tv.len(),
                    j <= m,
                    rest2@ == sv.skip(j as int),
                    lines@.len() == 1 + nd + j,
                    is_host_head(lines@[0]@, index, h),
                    forall|k: int| 0 <= k < nd ==> #[trigger] lines@[1 + k] == tv[k],
                    forall|k: int| 0 <= k < j ==> #[trigger] lines@[1 + nd + k] == sv[k],
                decreases m - j,
            {
                let l = rest2.remove(0);
                lines.push(l);
                j = j + 1;
                assert(rest2@ =~= sv.skip(j as int));
            }
            assert(is_services_head(sv[0]@, self.ports@));
            let ghost k0: int = 0;
            assert(lines@[1 + nd + k0] == sv[k0]);
            assert forall|i: int| 0 <= i < self.ports@.len() implies is_port_line(
                #[trigger] lines@[2 + nd + i]@,
                self.ports@[i],
                i,
                self.ports@.len() as int,
            ) by {
                assert(lines@[1 + nd + (i + 1)] == sv[i + 1]);
            }
        }
        assert forall|k: int| 0 <= k < nd implies {
            let l = #[trigger] lines@[1 + k]@;
            &&& is_tree_line(l, k, nd as int, span_text(l[3]), l.skip(7))
            &&& detail_matches(span_text(l[3]), l.skip(7), h, redact, k)
        } by {
            assert(lines@[1 + k] == tv[k]);
            assert(is_tree_line(tv[k]@, k, nd as int, dv[k].key@, dv[k].value@));
            assert(detail_matches(dv[k].key@, dv[k].value@, h, redact, k));
        }
        lines
    }
}

/// The address a host is listed by: the first of its addresses, or its
/// primary address when it has none.
pub open spec fn sort_ip(h: Host) -> IpAddr {
    if h.ips@.len() > 0 {
        h.ips@[0]
    } else {
        h.primary_ip
    }
}

/// The position of a host in the listing order.
pub open spec fn host_key(h: Host) -> int {
    ip_key(sort_ip(h))
}

/// Whether `sorted` is `hosts` stably sorted by `host_key`, with
/// `sorted[k] == hosts[perm[k]]`.
pub open spec fn is_stable_sort(hosts: Seq<Host>, sorted: Seq<Host>, perm: Seq<int>) -> bool {
    &&& sorted.len() == hosts.len()
    &&& perm.len() == hosts.len()
    &&& forall|k: int| 0 <= k < perm.len() ==> 0 <= #[trigger] perm[k] < hosts.len()
    &&& forall|k: int| 0 <= k < perm.len() ==> sorted[k] == hosts[#[trigger] perm[k]]
    &&& forall|j: int, k: int| 0 <= j < k < perm.len() ==> perm[j] != perm[k]
    &&& forall|j: int, k: int|
        0 <= j < k < sorted.len() ==> host_key(#[trigger] sorted[j]) <= host_key(#[trigger] sorted[k])
    &&& forall|j: int, k: int|
        0 <= j < k < sorted.len() && host_key(sorted[j]) == host_key(sorted[k]) ==> #[trigger] perm[j]
            < #[trigger] perm[k]
}

/// The address a host is listed by.
fn sort_ip_of(h: &Host) -> (r: &IpAddr)
    ensures
        *r == sort_ip(*h),
{
    if h.ips.len() > 0 {
        &h.ips[0]
    } else {
        &h.primary_ip
    }
}

/// Sorts hosts by the address they are listed by (IPv4 before IPv6, each by
/// numeric value); hosts with the same address keep their order.
pub fn sort_hosts(hosts: Vec<Host>) -> (sorted: Vec<Host>)
    ensures
        exists|perm: Seq<int>| is_stable_sort(hosts@, sorted@, perm),
{
    let n = hosts.len();
    let ghost orig = hosts@;
    let mut rest = hosts;
    let mut sorted: Vec<Host> = Vec::new();
    let ghost mut perm: Seq<int> = Seq::empty();
    let mut i: usize = 0;
    while i < n
        invariant
            n == orig.len(),
            i <= n,
            rest@ == orig.skip(i as int),
            sorted@.len() == i,
            perm.len() == i,
            forall|k: int| 0 <= k < perm.len() ==> 0 <= #[trigger] perm[k] < i,
            forall|k: int| 0 <= k < perm.len() ==> sorted@[k] == orig[#[trigger] perm[k]],
            forall|j: int, k: int| 0 <= j < k < perm.len() ==> perm[j] != perm[k],
            forall|j: int, k: int|
                0 <= j < k < sorted@.len() ==> host_key(#[trigger] sorted@[j]) <= host_key(
                    #[trigger] sorted@[k],
                ),
            forall|j: int, k: int|
                0 <= j < k < sorted@.len() && host_key(sorted@[j]) == host_key(sorted@[k])
                    ==> #[trigger] perm[j] < #[trigger] perm[k],
        decreases n - i,
    {
        let h = rest.remove(0);
        assert(h == orig[i as int]);
        let mut pos = sorted.len();
        while pos > 0 && ip_lt(sort_ip_of(&h), sort_ip_of(&sorted[pos - 1]))
            invariant
                pos <= sorted@.len(),
                forall|k: int| pos <= k < sorted@.len() ==> host_key(h) < host_key(
                    #[trigger] sorted@[k],
                ),
            decreases pos,
        {
            pos = pos - 1;
        }
        let ghost old_sorted = sorted@;
        let ghost old_perm = perm;
        proof {
            if pos > 0 {
                assert(host_key(old_sorted[pos - 1]) <= host_key(h));
            }
        }
        sorted.insert(pos, h);
        proof {
            perm = old_perm.insert(pos as int, i as int);
            assert forall|k: int| 0 <= k < perm.len() implies sorted@[k] == orig[#[trigger] perm[k]] by {
                if k < pos {
                    assert(perm[k] == old_perm[k]);
                } else if k > pos {
                    assert(perm[k] == old_perm[k - 1]);
                }
            }
            assert forall|j: int, k: int| 0 <= j < k < sorted@.len() implies host_key(
                #[trigger] sorted@[j],
            ) <= host_key(#[trigger] sorted@[k]) by {
                if k == pos && j < pos {
                    if j < pos - 1 {
                        assert(host_key(old_sorted[j]) <= host_key(old_sorted[pos - 1]));
                    }
                } else if j == pos && k > pos {
                    assert(sorted@[k] == old_sorted[k - 1]);
                } else if j < pos && k > pos {
                    assert(sorted@[k] == old_sorted[k - 1]);
                } else if j > pos {
                    assert(sorted@[k] == old_sorted[k - 1]);
                    assert(sorted@[j] == old_sorted[j - 1]);
                }
            }
            assert forall|j: int, k: int|
                0 <= j < k < sorted@.len() && host_key(sorted@[j]) == host_key(sorted@[k]) implies
                #[trigger] perm[j] < #[trigger] perm[k] by {
                if j == pos {
                    assert(sorted@[k] == old_sorted[k - 1]);
                } else if k == pos {
                    assert(perm[j] == old_perm[j]);
                } else if j < pos && k > pos {
                    assert(sorted@[k] == old_sorted[k - 1]);
                    assert(perm[k] == old_perm[k - 1]);
                    assert(perm[j] == old_perm[j]);
                } else if j > pos {
                    assert(sorted@[k] == old_sorted[k - 1]);
                    assert(sorted@[j] == old_sorted[j - 1]);
                    assert(perm[k] == old_perm[k - 1]);
                    assert(perm[j] == old_perm[j - 1]);
                } else {
                    assert(perm[k] == old_perm[k]);
                    assert(perm[j] == old_perm[j]);
                }
            }
            assert forall|j: int, k: int| 0 <= j < k < perm.len() implies perm[j] != perm[k] by {
                if j < pos && k > pos {
                    assert(perm[k] == old_perm[k - 1]);
                } else if j > pos {
                    assert(perm[k] == old_perm[k - 1]);
                    assert(perm[j] == old_perm[j - 1]);
                }
            }
        }
        i = i + 1;
        assert(rest@ =~= orig.skip(i as int));
    }
    assert(is_stable_sort(orig, sorted@, perm));
    sorted
}

/// With redaction on, the only details shown in clear are the vendor, IPv4
/// addresses, and IPv6 addresses outside the named classes; hardware
/// addresses, host names and global, unique-local and link-local IPv6
/// addresses are redacted.
pub proof fn lemma_redaction_hides(key: Seq<char>, value: Seq<Span>, h: Host, k: int)
    requires
        0 <= k,
        detail_matches(key, value, h, true, k),
    ensures
        value.len() == 1,
        value[0].content is Text ==> key == "Vendor"@ || {
            let o = others(h.ips@, h.primary_ip);
            &&& k < o.len()
            &&& match o[k] {
                IpAddr::V4(_) => true,
                IpAddr::V6(s) => crate::net::spec_ipv6_kind(s@) == crate::net::Ipv6Kind::Other,
            }
        },
{
}

} // verus!
