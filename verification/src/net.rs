//! Network addresses: their model, the IPv6 address classes the tool shows,
//! the order in which hosts are listed, and their textual form.

use vstd::prelude::*;
use crate::text::{decimal_text, hex_digit, push_char, push_digits, spec_decimal, spec_hex, spec_hex_digit};

verus! {

broadcast use vstd::array::group_array_axioms;

/// An IP address: four octets, or eight 16-bit segments.
#[derive(Clone, Copy, PartialEq, Eq, Debug)]
pub enum IpAddr {
    V4([u8; 4]),
    V6([u16; 8]),
}

/// A hardware (MAC) address.
#[derive(Clone, Copy, PartialEq, Eq, Debug)]
pub struct MacAddr {
    pub octets: [u8; 6],
}

/// The IPv6 address classes that the tool names.
#[derive(Clone, Copy, PartialEq, Eq, Structural, Debug)]
pub enum Ipv6Kind {
    /// 2000::/3
    GlobalUnicast,
    /// fc00::/7
    UniqueLocal,
    /// fe80::/10
    LinkLocal,
    /// Any other address.
    Other,
}

/// Whether the segments lie in 2000::/3 (first octet 0x20 to 0x3F).
pub open spec fn in_global_unicast(s: Seq<u16>) -> bool {
    0x2000 <= s[0] <= 0x3fff
}

/// Whether the segments lie in fc00::/7.
pub open spec fn in_unique_local(s: Seq<u16>) -> bool {
    0xfc00 <= s[0] <= 0xfdff
}

/// Whether the segments lie in fe80::/10.
pub open spec fn in_link_local(s: Seq<u16>) -> bool {
    0xfe80 <= s[0] <= 0xfebf
}

/// The class of an IPv6 address.
pub open spec fn spec_ipv6_kind(s: Seq<u16>) -> Ipv6Kind {
    if in_global_unicast(s) {
        Ipv6Kind::GlobalUnicast
    } else if in_unique_local(s) {
        Ipv6Kind::UniqueLocal
    } else if in_link_local(s) {
        Ipv6Kind::LinkLocal
    } else {
        Ipv6Kind::Other
    }
}

/// The three named classes are disjoint prefixes: each address is in at
/// most one of them, and its class is the prefix it lies in.
pub proof fn lemma_ipv6_kind_prefixes(s: Seq<u16>)
    requires
        s.len() == 8,
    ensures
        !(in_global_unicast(s) && in_unique_local(s)),
        !(in_global_unicast(s) && in_link_local(s)),
        !(in_unique_local(s) && in_link_local(s)),
        spec_ipv6_kind(s) == Ipv6Kind::GlobalUnicast <==> in_global_unicast(s),
        spec_ipv6_kind(s) == Ipv6Kind::UniqueLocal <==> in_unique_local(s),
        spec_ipv6_kind(s) == Ipv6Kind::LinkLocal <==> in_link_local(s),
{
}

/// Whether the address lies in fc00::/7 (`Ipv6Addr::is_unique_local`).
pub fn is_unique_local(s: &[u16; 8]) -> (r: bool)
    ensures
        r == in_unique_local(s@),
{
    let x = s[0];
    assert(((x & 0xfe00u16) == 0xfc00u16) == (0xfc00 <= x && x <= 0xfdff)) by (bit_vector);
    (x & 0xfe00) == 0xfc00
}

/// Whether the address lies in fe80::/10 (`Ipv6Addr::is_unicast_link_local`).
pub fn is_unicast_link_local(s: &[u16; 8]) -> (r: bool)
    ensures
        r == in_link_local(s@),
{
    let x = s[0];
    assert(((x & 0xffc0u16) == 0xfe80u16) == (0xfe80 <= x && x <= 0xfebf)) by (bit_vector);
    (x & 0xffc0) == 0xfe80
}

/// The class of an IPv6 address.
pub fn ipv6_kind(s: &[u16; 8]) -> (k: Ipv6Kind)
    ensures
        k == spec_ipv6_kind(s@),
{
    let x = s[0];
    assert(((x >> 8u16) as u8 >= 0x20 && (x >> 8u16) as u8 <= 0x3f) == (0x2000 <= x && x
        <= 0x3fff)) by (bit_vector);
    let first_byte = (x >> 8u16) as u8;
    if 0x20 <= first_byte && first_byte <= 0x3f {
        Ipv6Kind::GlobalUnicast
    } else if is_unique_local(s) {
        Ipv6Kind::UniqueLocal
    } else if is_unicast_link_local(s) {
        Ipv6Kind::LinkLocal
    } else {
        Ipv6Kind::Other
    }
}

/// The short label of an IPv6 class.
pub open spec fn spec_kind_label(k: Ipv6Kind) -> Seq<char> {
    match k {
        Ipv6Kind::GlobalUnicast => "GUA"@,
        Ipv6Kind::UniqueLocal => "ULA"@,
        Ipv6Kind::LinkLocal => "LLA"@,
        Ipv6Kind::Other => "IPv6"@,
    }
}

/// The short label of an IPv6 class: "GUA", "ULA", "LLA" or "IPv6".
pub fn kind_label(k: Ipv6Kind) -> (r: &'static str)
    ensures
        r@ == spec_kind_label(k),
{
    match k {
        Ipv6Kind::GlobalUnicast => "GUA",
        Ipv6Kind::UniqueLocal => "ULA",
        Ipv6Kind::LinkLocal => "LLA",
        Ipv6Kind::Other => "IPv6",
    }
}

/// Equality of addresses (same family, same octets or segments).
pub fn ip_eq(a: &IpAddr, b: &IpAddr) -> (r: bool)
    ensures
        r == (*a == *b),
{
    match (a, b) {
        (IpAddr::V4(x), IpAddr::V4(y)) => {
            let r = x[0] == y[0] && x[1] == y[1] && x[2] == y[2] && x[3] == y[3];
            proof {
                if r {
                    assert(*x =~= *y);
                } else {
                    assert(x@ != y@);
                }
            }
            r
        },
        (IpAddr::V6(x), IpAddr::V6(y)) => {
            let mut i: usize = 0;
            while i < 8
                invariant
                    i <= 8,
                    *a == IpAddr::V6(*x),
                    *b == IpAddr::V6(*y),
                    forall|k: int| 0 <= k < i ==> x@[k] == y@[k],
                decreases 8 - i,
            {
                if x[i] != y[i] {
                    assert(x@ != y@);
                    return false;
                }
                i = i + 1;
            }
            assert(*x =~= *y);
            true
        },
        _ => false,
    }
}

/// The dotted decimal text of four octets ("192.168.0.1").
pub open spec fn spec_ipv4_text(o: Seq<u8>) -> Seq<char> {
    spec_decimal(o[0] as nat) + seq!['.'] + spec_decimal(o[1] as nat) + seq!['.'] + spec_decimal(
        o[2] as nat,
    ) + seq!['.'] + spec_decimal(o[3] as nat)
}

/// Segments in lower-case hexadecimal, separated by `:`.
pub open spec fn spec_hex_join(s: Seq<u16>) -> Seq<char>
    decreases s.len(),
{
    if s.len() == 0 {
        Seq::empty()
    } else if s.len() == 1 {
        spec_hex(s[0] as nat)
    } else {
        spec_hex_join(s.drop_last()) + seq![':'] + spec_hex(s.last() as nat)
    }
}

/// Whether `s[a..a + l]` is a run of zero segments.
pub open spec fn is_zero_run(s: Seq<u16>, a: int, l: int) -> bool {
    &&& 0 <= a
    &&& 0 <= l
    &&& a + l <= s.len()
    &&& forall|k: int| a <= k < a + l ==> s[k] == 0
}

/// Whether `(a, l)` is the first of the longest runs of zero segments
/// (`(0, 0)` when there is no zero segment).
pub open spec fn is_first_longest_zero_run(s: Seq<u16>, a: int, l: int) -> bool {
    &&& is_zero_run(s, a, l)
    &&& forall|b: int, m: int| #[trigger] is_zero_run(s, b, m) ==> m <= l
    &&& l > 0 ==> forall|b: int| 0 <= b < a ==> !#[trigger] is_zero_run(s, b, l)
    &&& l == 0 ==> a == 0
}

/// The first of the longest runs of zero segments.
pub open spec fn spec_zero_run(s: Seq<u16>) -> (int, int) {
    choose|r: (int, int)| is_first_longest_zero_run(s, r.0, r.1)
}

/// There is one first longest run.
pub proof fn lemma_zero_run_unique(s: Seq<u16>, a: int, l: int, b: int, m: int)
    requires
        is_first_longest_zero_run(s, a, l),
        is_first_longest_zero_run(s, b, m),
    ensures
        a == b && l == m,
{
    assert(is_zero_run(s, a, l));
    assert(is_zero_run(s, b, m));
    assert(l <= m && m <= l);
    if l > 0 {
        if a < b {
            assert(!is_zero_run(s, a, m));
        }
        if b < a {
            assert(!is_zero_run(s, b, l));
        }
    }
}

/// Whether the segments are an IPv4-mapped address (::ffff:a.b.c.d).
pub open spec fn is_ipv4_mapped(s: Seq<u16>) -> bool {
    s[0] == 0 && s[1] == 0 && s[2] == 0 && s[3] == 0 && s[4] == 0 && s[5] == 0xffff
}

/// The text of an IPv6 address as `Ipv6Addr` displays it: IPv4-mapped
/// addresses as `::ffff:` and the dotted IPv4 text; otherwise lower-case
/// hexadecimal segments separated by `:`, the first longest run of two or
/// more zero segments written as `::` (RFC 5952).
pub open spec fn spec_ipv6_text(s: Seq<u16>) -> Seq<char> {
    if is_ipv4_mapped(s) {
        seq![':', ':', 'f', 'f', 'f', 'f', ':'] + spec_ipv4_text(
            seq![(s[6] / 256) as u8, (s[6] % 256) as u8, (s[7] / 256) as u8, (s[7] % 256) as u8],
        )
    } else {
        let r = spec_zero_run(s);
        if r.1 > 1 {
            spec_hex_join(s.take(r.0)) + seq![':', ':'] + spec_hex_join(s.skip(r.0 + r.1))
        } else {
            spec_hex_join(s)
        }
    }
}

/// The text of an IP address.
pub open spec fn spec_ip_text(ip: IpAddr) -> Seq<char> {
    match ip {
        IpAddr::V4(o) => spec_ipv4_text(o@),
        IpAddr::V6(s) => spec_ipv6_text(s@),
    }
}

/// Two lower-case hexadecimal digits for a byte ("0a").
pub open spec fn spec_hex2(b: u8) -> Seq<char> {
    seq![spec_hex_digit((b / 16) as nat), spec_hex_digit((b % 16) as nat)]
}

/// The text of a MAC address: six two-digit lower-case hexadecimal octets
/// separated by `:` ("00:1a:2b:3c:4d:5e").
pub open spec fn spec_mac_text(m: Seq<u8>) -> Seq<char> {
    spec_hex2(m[0]) + seq![':'] + spec_hex2(m[1]) + seq![':'] + spec_hex2(m[2]) + seq![':']
        + spec_hex2(m[3]) + seq![':'] + spec_hex2(m[4]) + seq![':'] + spec_hex2(m[5])
}

/// Appends the dotted decimal text of four octets.
pub fn push_ipv4_text(out: &mut String, o: [u8; 4])
    ensures
        final(out)@ == old(out)@ + spec_ipv4_text(o@),
{
    push_digits(out, o[0] as u128, 10);
    push_char(out, '.');
    push_digits(out, o[1] as u128, 10);
    push_char(out, '.');
    push_digits(out, o[2] as u128, 10);
    push_char(out, '.');
    push_digits(out, o[3] as u128, 10);
    assert(out@ =~= old(out)@ + spec_ipv4_text(o@));
}

/// Appends `s[from..to]` in hexadecimal separated by `:`.
pub fn push_hex_join(out: &mut String, s: &[u16; 8], from: usize, to: usize)
    requires
        from <= to <= 8,
    ensures
        final(out)@ == old(out)@ + spec_hex_join(s@.subrange(from as int, to as int)),
{
    let mut k = from;
    assert(s@.subrange(from as int, from as int) =~= Seq::<u16>::empty());
    while k < to
        invariant
            from <= k <= to <= 8,
            out@ == old(out)@ + spec_hex_join(s@.subrange(from as int, k as int)),
        decreases to - k,
    {
        let ghost before = out@;
        if k > from {
            push_char(out, ':');
        }
        push_digits(out, s[k] as u128, 16);
        k = k + 1;
        let ghost part = s@.subrange(from as int, k as int);
        assert(part.drop_last() =~= s@.subrange(from as int, k - 1));
        assert(part.last() == s@[k - 1]);
        if k - 1 > from {
            assert(out@ =~= old(out)@ + spec_hex_join(part));
        } else {
            assert(part.len() == 1);
            assert(out@ =~= old(out)@ + spec_hex_join(part));
        }
    }
}

/// What the scan for the longest zero run knows after `i` segments.
pub open spec fn zero_scan_state(s: Seq<u16>, i: int, a: int, l: int, cur: int) -> bool {
    &&& 0 <= i <= s.len()
    &&& is_first_longest_zero_run(s.take(i), a, l)
    &&& 0 <= cur <= i
    &&& is_zero_run(s, i - cur, cur)
    &&& (cur == i || s[i - cur - 1] != 0)
}

/// One step of the scan for the longest zero run.
pub proof fn lemma_zero_scan_step(s: Seq<u16>, i: int, a: int, l: int, cur: int)
    requires
        zero_scan_state(s, i, a, l, cur),
        i < s.len(),
    ensures
        s[i] == 0 && cur + 1 > l ==> zero_scan_state(s, i + 1, i - cur, cur + 1, cur + 1),
        s[i] == 0 && cur + 1 <= l ==> zero_scan_state(s, i + 1, a, l, cur + 1),
        s[i] != 0 ==> zero_scan_state(s, i + 1, a, l, 0),
{
    let p = s.take(i);
    let q = s.take(i + 1);
    assert forall|b: int, m: int| #[trigger] is_zero_run(q, b, m) && b + m <= i implies is_zero_run(
        p,
        b,
        m,
    ) by {
        assert forall|k: int| b <= k < b + m implies p[k] == 0 by {
            assert(q[k] == 0);
        }
    }
    assert forall|b: int, m: int| #[trigger] is_zero_run(q, b, m) && b + m == i + 1 && m > 0
        implies s[i] == 0 && b >= i - cur && m <= cur + 1 by {
        assert(q[i] == 0);
        if b < i - cur {
            assert(q[i - cur - 1] == 0);
        }
    }
    // The prefix's runs carry over to the longer prefix.
    assert forall|b: int, m: int| #[trigger] is_zero_run(p, b, m) implies is_zero_run(q, b, m) by {
        assert forall|k: int| b <= k < b + m implies q[k] == 0 by {
            assert(p[k] == 0);
        }
    }
    assert(is_zero_run(q, a, l));
    if s[i] == 0 {
        assert(is_zero_run(q, i - cur, cur + 1)) by {
            assert forall|k: int| i - cur <= k < i + 1 implies q[k] == 0 by {
                if k < i {
                    assert(s[k] == 0);
                }
            }
        }
        if cur + 1 > l {
            assert forall|b: int| 0 <= b < i - cur implies !#[trigger] is_zero_run(q, b, cur + 1) by {
                if is_zero_run(q, b, cur + 1) {
                    if b + cur + 1 <= i {
                        assert(is_zero_run(p, b, cur + 1));
                    }
                }
            }
        } else {
            assert forall|b: int| 0 <= b < a && l > 0 implies !#[trigger] is_zero_run(q, b, l) by {
                if is_zero_run(q, b, l) {
                    if b + l <= i {
                        assert(is_zero_run(p, b, l));
                    } else {
                        assert(b >= i - cur);
                        assert(a + l <= i);
                    }
                }
            }
        }
        assert(is_zero_run(s, i + 1 - (cur + 1), cur + 1)) by {
            assert forall|k: int| i - cur <= k < i + 1 implies s[k] == 0 by {
                if k < i {
                    assert(s[k] == 0);
                }
            }
        }
    } else {
        assert forall|b: int| 0 <= b < a && l > 0 implies !#[trigger] is_zero_run(q, b, l) by {
            if is_zero_run(q, b, l) {
                if b + l <= i {
                    assert(is_zero_run(p, b, l));
                } else {
                    assert(q[i] == 0);
                }
            }
        }
        assert(is_zero_run(s, i + 1, 0));
    }
}

/// The first longest run of zero segments, as `(start, length)`.
pub fn zero_run(s: &[u16; 8]) -> (r: (usize, usize))
    ensures
        is_first_longest_zero_run(s@, r.0 as int, r.1 as int),
{
    let mut a: usize = 0;
    let mut l: usize = 0;
    let mut cur: usize = 0;
    let mut i: usize = 0;
    assert(zero_scan_state(s@, 0, 0, 0, 0)) by {
        assert forall|b: int, m: int| #[trigger] is_zero_run(s@.take(0), b, m) implies m <= 0 by {}
    }
    while i < 8
        invariant
            i <= 8,
            zero_scan_state(s@, i as int, a as int, l as int, cur as int),
        decreases 8 - i,
    {
        proof {
            lemma_zero_scan_step(s@, i as int, a as int, l as int, cur as int);
        }
        if s[i] == 0 {
            if cur + 1 > l {
                a = i - cur;
                l = cur + 1;
            }
            cur = cur + 1;
        } else {
            cur = 0;
        }
        i = i + 1;
    }
    assert(s@.take(8) =~= s@);
    (a, l)
}

/// Appends the text of an IPv6 address.
pub fn push_ipv6_text(out: &mut String, s: &[u16; 8])
    ensures
        final(out)@ == old(out)@ + spec_ipv6_text(s@),
{
    if s[0] == 0 && s[1] == 0 && s[2] == 0 && s[3] == 0 && s[4] == 0 && s[5] == 0xffff {
        push_char(out, ':');
        push_char(out, ':');
        push_char(out, 'f');
        push_char(out, 'f');
        push_char(out, 'f');
        push_char(out, 'f');
        push_char(out, ':');
        let o = [(s[6] / 256) as u8, (s[6] % 256) as u8, (s[7] / 256) as u8, (s[7] % 256) as u8];
        let ghost mid = out@;
        push_ipv4_text(out, o);
        assert(o@ =~= seq![
            (s@[6] / 256) as u8,
            (s@[6] % 256) as u8,
            (s@[7] / 256) as u8,
            (s@[7] % 256) as u8,
        ]);
        assert(out@ =~= old(out)@ + spec_ipv6_text(s@));
    } else {
        let (a, l) = zero_run(s);
        proof {
            let r = spec_zero_run(s@);
            assert(is_first_longest_zero_run(s@, a as int, l as int));
            assert(is_first_longest_zero_run(s@, r.0, r.1));
            lemma_zero_run_unique(s@, a as int, l as int, r.0, r.1);
        }
        if l > 1 {
            push_hex_join(out, s, 0, a);
            push_char(out, ':');
            push_char(out, ':');
            let ghost mid = out@;
            push_hex_join(out, s, a + l, 8);
            assert(s@.subrange(0, a as int) =~= s@.take(a as int));
            assert(s@.subrange(a + l, 8) =~= s@.skip(a + l));
            assert(out@ =~= old(out)@ + spec_ipv6_text(s@));
        } else {
            push_hex_join(out, s, 0, 8);
            assert(s@.subrange(0, 8) =~= s@);
        }
    }
}

/// Appends the text of an IP address.
pub fn push_ip_text(out: &mut String, ip: &IpAddr)
    ensures
        final(out)@ == old(out)@ + spec_ip_text(*ip),
{
    match ip {
        IpAddr::V4(o) => push_ipv4_text(out, *o),
        IpAddr::V6(s) => push_ipv6_text(out, s),
    }
}

/// The text of an IP address (`IpAddr::to_string`).
pub fn ip_text(ip: &IpAddr) -> (r: String)
    ensures
        r@ == spec_ip_text(*ip),
{
    let mut r = String::new();
    push_ip_text(&mut r, ip);
    assert(r@ =~= spec_ip_text(*ip));
    r
}

/// Appends two hexadecimal digits for a byte.
fn push_hex2(out: &mut String, b: u8)
    ensures
        final(out)@ == old(out)@ + spec_hex2(b),
{
    push_char(out, hex_digit(b / 16));
    push_char(out, hex_digit(b % 16));
    assert(out@ =~= old(out)@ + spec_hex2(b));
}

/// The text of a MAC address.
pub fn mac_text(m: &MacAddr) -> (r: String)
    ensures
        r@ == spec_mac_text(m.octets@),
{
    let mut r = String::new();
    push_hex2(&mut r, m.octets[0]);
    let mut i: usize = 1;
    while i < 6
        invariant
            1 <= i <= 6,
            r@ == spec_mac_prefix(m.octets@, i as int),
        decreases 6 - i,
    {
        push_char(&mut r, ':');
        push_hex2(&mut r, m.octets[i]);
        i = i + 1;
    }
    assert(spec_mac_prefix(m.octets@, 6) =~= spec_mac_text(m.octets@)) by {
        reveal_with_fuel(spec_mac_prefix, 6);
    }
    r
}

/// The text of the first `n` octets of a MAC address.
pub open spec fn spec_mac_prefix(m: Seq<u8>, n: int) -> Seq<char>
    decreases n,
{
    if n <= 1 {
        spec_hex2(m[0])
    } else {
        spec_mac_prefix(m, n - 1) + seq![':'] + spec_hex2(m[n - 1])
    }
}

/// The value of four octets read as a big-endian number.
pub open spec fn ipv4_value(o: Seq<u8>) -> int {
    ((o[0] as int * 256 + o[1] as int) * 256 + o[2] as int) * 256 + o[3] as int
}

/// The value of eight segments read as a big-endian number.
pub open spec fn ipv6_value(s: Seq<u16>) -> int {
    ((((((s[0] as int * 65536 + s[1] as int) * 65536 + s[2] as int) * 65536 + s[3] as int) * 65536
        + s[4] as int) * 65536 + s[5] as int) * 65536 + s[6] as int) * 65536 + s[7] as int
}

/// The position of an address in the order of `IpAddr`: every IPv4 address
/// before every IPv6 address, each family by its numeric value.
pub open spec fn ip_key(ip: IpAddr) -> int {
    match ip {
        IpAddr::V4(o) => ipv4_value(o@),
        IpAddr::V6(s) => 0x1_0000_0000 + ipv6_value(s@),
    }
}

/// Bounds of the numeric values.
pub proof fn lemma_ip_value_bounds(ip: IpAddr)
    ensures
        match ip {
            IpAddr::V4(o) => 0 <= ipv4_value(o@) < 0x1_0000_0000,
            IpAddr::V6(s) => 0 <= ipv6_value(s@),
        },
{
}

/// Whether `a` comes before `b` in the order of `IpAddr`.
pub fn ip_lt(a: &IpAddr, b: &IpAddr) -> (r: bool)
    ensures
        r == (ip_key(*a) < ip_key(*b)),
{
    proof {
        lemma_ip_value_bounds(*a);
        lemma_ip_value_bounds(*b);
    }
    match (a, b) {
        (IpAddr::V4(_), IpAddr::V6(_)) => true,
        (IpAddr::V6(_), IpAddr::V4(_)) => false,
        (IpAddr::V4(x), IpAddr::V4(y)) => {
            if x[0] != y[0] {
                x[0] < y[0]
            } else if x[1] != y[1] {
                x[1] < y[1]
            } else if x[2] != y[2] {
                x[2] < y[2]
            } else {
                x[3] < y[3]
            }
        },
        (IpAddr::V6(x), IpAddr::V6(y)) => {
            let mut i: usize = 0;
            while i < 8 && x[i] == y[i]
                invariant
                    i <= 8,
                    forall|k: int| 0 <= k < i ==> x@[k] == y@[k],
                decreases 8 - i,
            {
                i = i + 1;
            }
            let r = i < 8 && x[i] < y[i];
            proof {
                lemma_lex_u16(x@, y@, i as int);
            }
            r
        },
    }
}

/// Comparing eight segments from the first that differs decides their values.
pub proof fn lemma_lex_u16(x: Seq<u16>, y: Seq<u16>, i: int)
    requires
        x.len() == 8,
        y.len() == 8,
        0 <= i <= 8,
        forall|k: int| 0 <= k < i ==> x[k] == y[k],
        i < 8 ==> x[i] != y[i],
    ensures
        (ipv6_value(x) < ipv6_value(y)) == (i < 8 && x[i] < y[i]),
{
    let a0 = x[0] as int; let a1 = x[1] as int; let a2 = x[2] as int; let a3 = x[3] as int;
    let a4 = x[4] as int; let a5 = x[5] as int; let a6 = x[6] as int; let a7 = x[7] as int;
    let b0 = y[0] as int; let b1 = y[1] as int; let b2 = y[2] as int; let b3 = y[3] as int;
    let b4 = y[4] as int; let b5 = y[5] as int; let b6 = y[6] as int; let b7 = y[7] as int;
    let h1x = a0 * 65536 + a1; let h1y = b0 * 65536 + b1;
    let h2x = h1x * 65536 + a2; let h2y = h1y * 65536 + b2;
    let h3x = h2x * 65536 + a3; let h3y = h2y * 65536 + b3;
    let h4x = h3x * 65536 + a4; let h4y = h3y * 65536 + b4;
    let h5x = h4x * 65536 + a5; let h5y = h4y * 65536 + b5;
    let h6x = h5x * 65536 + a6; let h6y = h5y * 65536 + b6;
    let h7x = h6x * 65536 + a7; let h7y = h6y * 65536 + b7;
    assert(ipv6_value(x) == h7x);
    assert(ipv6_value(y) == h7y);
    // Each Horner step keeps the order of the prefix when the prefixes differ.
    assert(forall|p: int, q: int, c: int, d: int|
        0 <= c < 65536 && 0 <= d < 65536 && p < q ==> #[trigger] (p * 65536 + c) < #[trigger] (q * 65536 + d))
        by (nonlinear_arith);
    assert(forall|p: int, c: int, d: int|
        c < d ==> #[trigger] (p * 65536 + c) < #[trigger] (p * 65536 + d));
    if i >= 1 { assert(a0 == b0); }
    if i >= 2 { assert(a1 == b1); }
    if i >= 3 { assert(a2 == b2); }
    if i >= 4 { assert(a3 == b3); }
    if i >= 5 { assert(a4 == b4); }
    if i >= 6 { assert(a5 == b5); }
    if i >= 7 { assert(a6 == b6); }
    if i >= 8 { assert(a7 == b7); }
}

} // verus!
