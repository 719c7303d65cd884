//! IP addresses as numbers, their textual forms, and CIDR prefixes.

use vstd::prelude::*;
use crate::numeral::{all_digits, digits_value};
use crate::text::{
    char_is_digit, chars_of, find_first, find_from, is_digit, slice_of, split, split_chars, views,
};

verus! {

/// An IP address: the 32 bits of an IPv4 address or the 128 bits of an IPv6
/// address, most significant bit first.
#[derive(Debug, Clone, Copy, PartialEq, Eq, Structural)]
pub enum IpAddress {
    V4(u32),
    V6(u128),
}

/// A transport address: an IP address and a port.
#[derive(Debug, Clone, Copy, PartialEq, Eq, Structural)]
pub struct SocketAddress {
    pub ip: IpAddress,
    pub port: u16,
}

// ---------------------------------------------------------------------------
// IPv4 text
// ---------------------------------------------------------------------------

/// One part of a dotted quad: one to three digits, without a leading zero
/// unless it is `0`, at most 255.
pub open spec fn parse_octet(s: Seq<char>) -> Option<nat> {
    if 1 <= s.len() <= 3 && all_digits(s) && (s.len() == 1 || s[0] != '0') && digits_value(s)
        <= 255 {
        Some(digits_value(s))
    } else {
        None
    }
}

/// The address that the dotted quad `s` denotes.
pub open spec fn parse_ipv4(s: Seq<char>) -> Option<u32> {
    let p = split(s, '.');
    if p.len() == 4 && parse_octet(p[0]) is Some && parse_octet(p[1]) is Some && parse_octet(
        p[2],
    ) is Some && parse_octet(p[3]) is Some {
        Some(
            (((parse_octet(p[0])->0 * 256 + parse_octet(p[1])->0) * 256 + parse_octet(p[2])->0)
                * 256 + parse_octet(p[3])->0) as u32,
        )
    } else {
        None
    }
}

fn read_octet(v: &Vec<char>) -> (r: Option<u32>)
    ensures
        match r {
            Some(n) => parse_octet(v@) == Some(n as nat) && n <= 255,
            None => parse_octet(v@) is None,
        },
{
    if v.len() < 1 || v.len() > 3 {
        return None;
    }
    if v.len() > 1 && v[0] == '0' {
        return None;
    }
    let mut acc: u32 = 0;
    let mut i: usize = 0;
    assert(v@.take(0) == Seq::<char>::empty());
    while i < v.len()
        invariant
            i <= v.len() <= 3,
            forall|j: int| 0 <= j < i ==> is_digit(#[trigger] v@[j]),
            acc == digits_value(v@.take(i as int)),
            acc < 1000,
            i < 3 ==> acc < 100,
            i < 2 ==> acc < 10,
            i < 1 ==> acc == 0,
        decreases v.len() - i,
    {
        let c = v[i];
        if !char_is_digit(c) {
            return None;
        }
        proof {
            assert(v@.take(i + 1).drop_last() == v@.take(i as int));
            assert(v@.take(i + 1).last() == c);
        }
        acc = acc * 10 + (c as u32 - 0x30);
        i += 1;
    }
    assert(v@.take(v.len() as int) == v@);
    if acc > 255 {
        None
    } else {
        Some(acc)
    }
}

/// Reads a dotted quad.
pub fn read_ipv4(v: &Vec<char>) -> (r: Option<u32>)
    ensures
        r == parse_ipv4(v@),
{
    let parts = split_chars(v, '.');
    if parts.len() != 4 {
        return None;
    }
    assert(views(parts@)[0] == parts@[0]@);
    assert(views(parts@)[1] == parts@[1]@);
    assert(views(parts@)[2] == parts@[2]@);
    assert(views(parts@)[3] == parts@[3]@);
    let a = match read_octet(&parts[0]) {
        Some(x) => x,
        None => {
            return None;
        },
    };
    let b = match read_octet(&parts[1]) {
        Some(x) => x,
        None => {
            return None;
        },
    };
    let c = match read_octet(&parts[2]) {
        Some(x) => x,
        None => {
            return None;
        },
    };
    let d = match read_octet(&parts[3]) {
        Some(x) => x,
        None => {
            return None;
        },
    };
    Some(((a * 256 + b) * 256 + c) * 256 + d)
}

// ---------------------------------------------------------------------------
// IPv6 text
// ---------------------------------------------------------------------------

pub open spec fn is_hex(c: char) -> bool {
    is_digit(c) || ('a' <= c && c <= 'f') || ('A' <= c && c <= 'F')
}

pub open spec fn hex_value(c: char) -> nat {
    if is_digit(c) {
        (c as u32 - 0x30) as nat
    } else if 'a' <= c && c <= 'f' {
        (c as u32 - 0x57) as nat
    } else {
        (c as u32 - 0x37) as nat
    }
}

pub open spec fn hex_digits_value(s: Seq<char>) -> nat
    decreases s.len(),
{
    if s.len() == 0 {
        0
    } else {
        hex_digits_value(s.drop_last()) * 16 + hex_value(s.last())
    }
}

/// One group of an IPv6 address: one to four hexadecimal digits.
pub open spec fn parse_group(s: Seq<char>) -> Option<nat> {
    if 1 <= s.len() <= 4 && (forall|i: int| 0 <= i < s.len() ==> is_hex(#[trigger] s[i])) {
        Some(hex_digits_value(s))
    } else {
        None
    }
}

/// The groups that the parts denote, each part being one group.
pub open spec fn parse_groups(parts: Seq<Seq<char>>) -> Option<Seq<nat>>
    decreases parts.len(),
{
    if parts.len() == 0 {
        Some(Seq::empty())
    } else {
        match (parse_groups(parts.drop_last()), parse_group(parts.last())) {
            (Some(g), Some(x)) => Some(g.push(x)),
            _ => None,
        }
    }
}

/// The groups written before a `::`: none for the empty text, else groups
/// separated by colons.
pub open spec fn head_groups(s: Seq<char>) -> Option<Seq<nat>> {
    if s.len() == 0 {
        Some(Seq::empty())
    } else {
        parse_groups(split(s, ':'))
    }
}

/// The groups written at the end of an address: as `head_groups`, but the
/// last part may be a dotted quad, which stands for two groups.
pub open spec fn tail_groups(s: Seq<char>) -> Option<Seq<nat>> {
    if s.len() == 0 {
        Some(Seq::empty())
    } else {
        let parts = split(s, ':');
        match parse_ipv4(parts.last()) {
            Some(q) => match parse_groups(parts.drop_last()) {
                Some(g) => Some(g.push((q / 65536) as nat).push((q % 65536) as nat)),
                None => None,
            },
            None => parse_groups(parts),
        }
    }
}

/// The number whose 16-bit digits are `g`, most significant first.
pub open spec fn groups_value(g: Seq<nat>) -> nat
    decreases g.len(),
{
    if g.len() == 0 {
        0
    } else {
        groups_value(g.drop_last()) * 65536 + g.last()
    }
}

pub open spec fn zeros(n: int) -> Seq<nat> {
    Seq::new(
        if n >= 0 {
            n as nat
        } else {
            0
        },
        |i: int| 0nat,
    )
}

/// The address that the IPv6 text `s` denotes: eight groups, or fewer
/// around one `::` that stands for the missing groups, all zero.
pub open spec fn parse_ipv6_groups(s: Seq<char>) -> Option<Seq<nat>> {
    let i = find_from(s, seq![':', ':'], 0);
    if i < 0 {
        match tail_groups(s) {
            Some(g) => if g.len() == 8 {
                Some(g)
            } else {
                None
            },
            None => None,
        }
    } else {
        match (head_groups(s.take(i)), tail_groups(s.skip(i + 2))) {
            (Some(h), Some(t)) => if h.len() + t.len() <= 7 {
                Some(h + zeros(8 - h.len() - t.len()) + t)
            } else {
                None
            },
            _ => None,
        }
    }
}

pub open spec fn parse_ipv6(s: Seq<char>) -> Option<u128> {
    match parse_ipv6_groups(s) {
        Some(g) => Some(groups_value(g) as u128),
        None => None,
    }
}

/// The address that the text `s` denotes, in either family.
pub open spec fn parse_ip(s: Seq<char>) -> Option<IpAddress> {
    match parse_ipv4(s) {
        Some(a) => Some(IpAddress::V4(a)),
        None => match parse_ipv6(s) {
            Some(a) => Some(IpAddress::V6(a)),
            None => None,
        },
    }
}

/// The numbers held by a vector of groups.
pub open spec fn nats(g: Seq<u32>) -> Seq<nat> {
    Seq::new(g.len(), |i: int| g[i] as nat)
}

pub open spec fn all_groups(g: Seq<nat>) -> bool {
    forall|i: int| 0 <= i < g.len() ==> #[trigger] g[i] < 65536
}

fn read_hex_digit(c: char) -> (r: Option<u32>)
    ensures
        match r {
            Some(d) => is_hex(c) && d == hex_value(c) && d < 16,
            None => !is_hex(c),
        },
{
    let n = c as u32;
    if 0x30 <= n && n <= 0x39 {
        Some(n - 0x30)
    } else if 0x61 <= n && n <= 0x66 {
        Some(n - 0x57)
    } else if 0x41 <= n && n <= 0x46 {
        Some(n - 0x37)
    } else {
        None
    }
}

fn read_group(v: &Vec<char>) -> (r: Option<u32>)
    ensures
        match r {
            Some(n) => parse_group(v@) == Some(n as nat) && n < 65536,
            None => parse_group(v@) is None,
        },
{
    if v.len() < 1 || v.len() > 4 {
        return None;
    }
    let mut acc: u32 = 0;
    let mut i: usize = 0;
    assert(v@.take(0) == Seq::<char>::empty());
    while i < v.len()
        invariant
            i <= v.len() <= 4,
            forall|j: int| 0 <= j < i ==> is_hex(#[trigger] v@[j]),
            acc == hex_digits_value(v@.take(i as int)),
            acc < 65536,
            i < 4 ==> acc < 4096,
            i < 3 ==> acc < 256,
            i < 2 ==> acc < 16,
            i < 1 ==> acc == 0,
        decreases v.len() - i,
    {
        let c = v[i];
        match read_hex_digit(c) {
            None => {
                return None;
            },
            Some(d) => {
                proof {
                    assert(v@.take(i + 1).drop_last() == v@.take(i as int));
                    assert(v@.take(i + 1).last() == c);
                }
                acc = acc * 16 + d;
                i += 1;
            },
        }
    }
    assert(v@.take(v.len() as int) == v@);
    Some(acc)
}

fn read_groups(parts: &Vec<Vec<char>>, n: usize) -> (r: Option<Vec<u32>>)
    requires
        n <= parts.len(),
    ensures
        match r {
            Some(g) => parse_groups(views(parts@).take(n as int)) == Some(nats(g@)) && all_groups(
                nats(g@),
            ) && g.len() == n,
            None => parse_groups(views(parts@).take(n as int)) is None,
        },
{
    let mut out: Vec<u32> = Vec::new();
    let mut i: usize = 0;
    let ghost pv = views(parts@);
    assert(pv.take(0) =~= Seq::empty());
    assert(nats(out@) =~= Seq::empty());
    while i < n
        invariant
            i <= n <= parts.len(),
            pv == views(parts@),
            parse_groups(pv.take(i as int)) == Some(nats(out@)),
            all_groups(nats(out@)),
            out.len() == i,
        decreases n - i,
    {
        proof {
            assert(pv.take(i + 1).drop_last() =~= pv.take(i as int));
            assert(pv.take(i + 1).last() == parts@[i as int]@);
        }
        match read_group(&parts[i]) {
            None => {
                proof {
                    lemma_groups_prefix(pv.take(n as int), i + 1);
                    assert(pv.take(n as int).take(i + 1) =~= pv.take(i + 1));
                }
                return None;
            },
            Some(x) => {
                let ghost before = nats(out@);
                out.push(x);
                assert(nats(out@) =~= before.push(x as nat));
                i += 1;
            },
        }
    }
    Some(out)
}

/// Where a prefix of the parts holds no groups, the whole does not either.
proof fn lemma_groups_prefix(parts: Seq<Seq<char>>, k: int)
    requires
        0 <= k <= parts.len(),
        parse_groups(parts.take(k)) is None,
    ensures
        parse_groups(parts) is None,
    decreases parts.len() - k,
{
    if k < parts.len() {
        assert(parts.take(k + 1).drop_last() =~= parts.take(k));
        lemma_groups_prefix(parts, k + 1);
    } else {
        assert(parts.take(k) =~= parts);
    }
}

fn read_head(v: &Vec<char>, end: usize) -> (r: Option<Vec<u32>>)
    requires
        end <= v.len(),
    ensures
        match r {
            Some(g) => head_groups(v@.take(end as int)) == Some(nats(g@)) && all_groups(nats(g@)),
            None => head_groups(v@.take(end as int)) is None,
        },
{
    if end == 0 {
        let g: Vec<u32> = Vec::new();
        assert(nats(g@) =~= Seq::empty());
        return Some(g);
    }
    let head = slice_of(v, 0, end);
    assert(head@ == v@.take(end as int));
    let parts = split_chars(&head, ':');
    let r = read_groups(&parts, parts.len());
    assert(views(parts@).take(parts.len() as int) =~= views(parts@));
    r
}

fn read_tail(v: &Vec<char>, start: usize) -> (r: Option<Vec<u32>>)
    requires
        start <= v.len(),
    ensures
        match r {
            Some(g) => tail_groups(v@.skip(start as int)) == Some(nats(g@)) && all_groups(nats(g@)),
            None => tail_groups(v@.skip(start as int)) is None,
        },
{
    if start == v.len() {
        let g: Vec<u32> = Vec::new();
        assert(nats(g@) =~= Seq::empty());
        return Some(g);
    }
    let tail = slice_of(v, start, v.len());
    assert(tail@ == v@.skip(start as int));
    let parts = split_chars(&tail, ':');
    let ghost pv = views(parts@);
    assert(pv.len() > 0) by {
        crate::text::lemma_split_nonempty(tail@, ':');
    }
    let last = parts.len() - 1;
    assert(pv.last() == parts@[last as int]@);
    assert(pv.take(parts.len() as int) =~= pv);
    assert(pv.take(last as int) =~= pv.drop_last());
    match read_ipv4(&parts[last]) {
        Some(q) => match read_groups(&parts, last) {
            Some(g) => {
                let mut g = g;
                let ghost before = nats(g@);
                g.push(q / 65536);
                g.push(q % 65536);
                assert(nats(g@) =~= before.push((q / 65536) as nat).push((q % 65536) as nat));
                Some(g)
            },
            None => None,
        },
        None => read_groups(&parts, parts.len()),
    }
}

/// 65536 to the power `i`.
pub open spec fn group_weight(i: nat) -> nat
    decreases i,
{
    if i == 0 {
        1
    } else {
        65536 * group_weight((i - 1) as nat)
    }
}

proof fn lemma_group_weight_8()
    ensures
        group_weight(8) == 0x1_0000_0000_0000_0000_0000_0000_0000_0000,
        forall|i: nat| i <= 8 ==> #[trigger] group_weight(i) <= group_weight(8),
{
    reveal_with_fuel(group_weight, 10);
    assert forall|i: nat| i <= 8 implies #[trigger] group_weight(i) <= group_weight(8) by {
        if i == 0 {
        } else if i == 1 {
        } else if i == 2 {
        } else if i == 3 {
        } else if i == 4 {
        } else if i == 5 {
        } else if i == 6 {
        } else if i == 7 {
        } else {
        }
    }
}

fn groups_number(g: &Vec<u32>) -> (r: u128)
    requires
        g.len() == 8,
        all_groups(nats(g@)),
    ensures
        r == groups_value(nats(g@)),
{
    let mut acc: u128 = 0;
    let mut i: usize = 0;
    let ghost n = nats(g@);
    assert(n.take(0) =~= Seq::empty());
    while i < 8
        invariant
            i <= 8,
            g.len() == 8,
            n == nats(g@),
            all_groups(n),
            acc == groups_value(n.take(i as int)),
            acc < group_weight(i as nat),
        decreases 8 - i,
    {
        proof {
            lemma_group_weight_8();
            assert(n.take(i + 1).drop_last() =~= n.take(i as int));
            assert(n.take(i + 1).last() == g@[i as int] as nat);
            assert(n[i as int] < 65536);
            assert(group_weight((i + 1) as nat) == 65536 * group_weight(i as nat));
            assert(group_weight((i + 1) as nat) <= group_weight(8));
        }
        acc = acc * 65536 + g[i] as u128;
        i += 1;
    }
    assert(n.take(8) =~= n);
    acc
}

/// Reads an IPv6 address.
pub fn read_ipv6(v: &Vec<char>) -> (r: Option<u128>)
    ensures
        r == parse_ipv6(v@),
{
    let mut sep: Vec<char> = Vec::new();
    sep.push(':');
    sep.push(':');
    assert(sep@ =~= seq![':', ':']);
    match find_first(v, &sep, 0) {
        None => match read_tail(v, 0) {
            Some(g) => {
                assert(v@.skip(0) =~= v@);
                if g.len() == 8 {
                    Some(groups_number(&g))
                } else {
                    None
                }
            },
            None => {
                assert(v@.skip(0) =~= v@);
                None
            },
        },
        Some(i) => {
            let head = match read_head(v, i) {
                Some(h) => h,
                None => {
                    return None;
                },
            };
            let tail = match read_tail(v, i + 2) {
                Some(t) => t,
                None => {
                    return None;
                },
            };
            if head.len() > 7 || tail.len() > 7 - head.len() {
                return None;
            }
            let mut all = head;
            let ghost h = nats(all@);
            let ghost t = nats(tail@);
            let fill = 8 - all.len() - tail.len();
            let mut k: usize = 0;
            while k < fill
                invariant
                    k <= fill,
                    fill == 8 - h.len() - t.len(),
                    nats(all@) =~= h + zeros(k as int),
                decreases fill - k,
            {
                let ghost before = nats(all@);
                all.push(0);
                assert(nats(all@) =~= before.push(0nat));
                assert(zeros(k + 1) =~= zeros(k as int).push(0nat));
                k += 1;
            }
            let mut j: usize = 0;
            while j < tail.len()
                invariant
                    j <= tail.len(),
                    t == nats(tail@),
                    nats(all@) =~= h + zeros(fill as int) + t.take(j as int),
                decreases tail.len() - j,
            {
                let ghost before = nats(all@);
                all.push(tail[j]);
                assert(nats(all@) =~= before.push(t[j as int]));
                assert(t.take(j + 1) =~= t.take(j as int).push(t[j as int]));
                j += 1;
            }
            assert(t.take(tail.len() as int) =~= t);
            assert(all_groups(nats(all@)));
            Some(groups_number(&all))
        },
    }
}

/// Reads an IP address of either family.
pub fn read_ip(v: &Vec<char>) -> (r: Option<IpAddress>)
    ensures
        r == parse_ip(v@),
{
    match read_ipv4(v) {
        Some(a) => Some(IpAddress::V4(a)),
        None => match read_ipv6(v) {
            Some(a) => Some(IpAddress::V6(a)),
            None => None,
        },
    }
}

impl IpAddress {
    /// Reads an address from its text: a dotted quad, or IPv6 groups.
    pub fn parse(s: &str) -> (r: Option<IpAddress>)
        ensures
            r == parse_ip(s@),
    {
        let v = chars_of(s);
        read_ip(&v)
    }

    /// The IPv4 address `a.b.c.d`.
    pub fn from_octets(a: u8, b: u8, c: u8, d: u8) -> (r: IpAddress)
        ensures
            r == IpAddress::V4((((a as nat * 256 + b as nat) * 256 + c as nat) * 256 + d as nat) as u32),
    {
        IpAddress::V4(((a as u32 * 256 + b as u32) * 256 + c as u32) * 256 + d as u32)
    }
}

// ---------------------------------------------------------------------------
// Prefixes
// ---------------------------------------------------------------------------

/// Whether the first `n` bits of `ip` are the first `n` bits of `net`.
pub open spec fn v4_prefix_eq(ip: u32, net: u32, n: u8) -> bool {
    n == 0 || (n <= 32 && (ip >> ((32 - n) as u32)) == (net >> ((32 - n) as u32)))
}

/// Whether the first `n` bits of `ip` are the first `n` bits of `net`.
pub open spec fn v6_prefix_eq(ip: u128, net: u128, n: u8) -> bool {
    n == 0 || (n <= 128 && (ip >> ((128 - n) as u128)) == (net >> ((128 - n) as u128)))
}

/// Check if an IPv4 address matches a CIDR range.
pub fn matches_ipv4_cidr(ip: u32, network: u32, prefix_len: u8) -> (b: bool)
    requires
        prefix_len <= 32,
    ensures
        b == v4_prefix_eq(ip, network, prefix_len),
{
    if prefix_len == 0 {
        return true;
    }
    let shift: u32 = 32 - prefix_len as u32;
    let mask: u32 = !0u32 << shift;
    assert(((ip & mask) == (network & mask)) == ((ip >> shift) == (network >> shift)))
        by (bit_vector)
        requires
            mask == !0u32 << shift,
            shift < 32,
    ;
    (ip & mask) == (network & mask)
}

/// Check if an IPv6 address matches a CIDR range.
pub fn matches_ipv6_cidr(ip: u128, network: u128, prefix_len: u8) -> (b: bool)
    requires
        prefix_len <= 128,
    ensures
        b == v6_prefix_eq(ip, network, prefix_len),
{
    if prefix_len == 0 {
        return true;
    }
    let shift: u128 = 128 - prefix_len as u128;
    (ip >> shift) == (network >> shift)
}

/// The bit of an IPv4 address at place `i`, counted from the most
/// significant bit.
pub open spec fn v4_bit(a: u32, i: nat) -> bool {
    (a >> ((31 - i) as u32)) & 1 == 1
}

/// The bit of an IPv6 address at place `i`, counted from the most
/// significant bit.
pub open spec fn v6_bit(a: u128, i: nat) -> bool {
    (a >> ((127 - i) as u128)) & 1 == 1
}

proof fn lemma_v4_one_more_bit(a: u32, b: u32, s: u32)
    requires
        s < 31,
    ensures
        (a >> s == b >> s) <==> ((a >> ((s + 1) as u32) == b >> ((s + 1) as u32)) && (((a >> s)
            & 1) == 1) == (((b >> s) & 1) == 1)),
{
    assert((a >> s == b >> s) <==> ((a >> ((s + 1) as u32) == b >> ((s + 1) as u32)) && (((a >> s)
        & 1) == 1) == (((b >> s) & 1) == 1))) by (bit_vector)
        requires
            s < 31,
    ;
}

/// A CIDR prefix compares the first bits: an address matches a network
/// under the prefix length `n` exactly when each of its first `n` bits is
/// the bit of the network at that place.
pub proof fn lemma_v4_prefix_is_first_bits(ip: u32, net: u32, n: u8)
    requires
        n <= 32,
    ensures
        v4_prefix_eq(ip, net, n) <==> (forall|i: nat| i < n ==> v4_bit(ip, i) == v4_bit(net, i)),
    decreases n,
{
    if n == 0 {
    } else if n == 1 {
        assert((ip >> 31u32 == net >> 31u32) <==> (((ip >> 31u32) & 1) == 1) == (((net >> 31u32) & 1)
            == 1)) by (bit_vector);
        if v4_prefix_eq(ip, net, n) {
            assert forall|i: nat| i < n implies v4_bit(ip, i) == v4_bit(net, i) by {
                assert(i == 0);
            }
        }
        if forall|i: nat| i < n ==> v4_bit(ip, i) == v4_bit(net, i) {
            assert(v4_bit(ip, 0) == v4_bit(net, 0));
        }
    } else {
        let m = (n - 1) as u8;
        lemma_v4_prefix_is_first_bits(ip, net, m);
        let s = (32 - n) as u32;
        lemma_v4_one_more_bit(ip, net, s);
        assert(v4_bit(ip, m as nat) == (((ip >> s) & 1) == 1));
        assert(v4_bit(net, m as nat) == (((net >> s) & 1) == 1));
        if v4_prefix_eq(ip, net, n) {
            assert forall|i: nat| i < n implies v4_bit(ip, i) == v4_bit(net, i) by {
                if i < m {
                }
            }
        }
        if forall|i: nat| i < n ==> v4_bit(ip, i) == v4_bit(net, i) {
            assert forall|i: nat| i < m implies v4_bit(ip, i) == v4_bit(net, i) by {
            }
            assert(v4_bit(ip, m as nat) == v4_bit(net, m as nat));
        }
    }
}

#[verifier::rlimit(100)]
proof fn lemma_v6_one_more_bit(a: u128, b: u128, s: u128)
    requires
        s < 127,
    ensures
        (a >> s == b >> s) <==> ((a >> ((s + 1) as u128) == b >> ((s + 1) as u128)) && (((a >> s)
            & 1) == 1) == (((b >> s) & 1) == 1)),
{
    assert((a >> s == b >> s) <==> ((a >> ((s + 1) as u128) == b >> ((s + 1) as u128)) && (((a
        >> s) & 1) == 1) == (((b >> s) & 1) == 1))) by (bit_vector)
        requires
            s < 127,
    ;
}

/// A CIDR prefix compares the first bits, for IPv6 addresses as for IPv4
/// addresses.
pub proof fn lemma_v6_prefix_is_first_bits(ip: u128, net: u128, n: u8)
    requires
        n <= 128,
    ensures
        v6_prefix_eq(ip, net, n) <==> (forall|i: nat| i < n ==> v6_bit(ip, i) == v6_bit(net, i)),
    decreases n,
{
    if n == 0 {
    } else if n == 1 {
        assert((ip >> 127u128 == net >> 127u128) <==> (((ip >> 127u128) & 1) == 1) == (((net
            >> 127u128) & 1) == 1)) by (bit_vector);
        if v6_prefix_eq(ip, net, n) {
            assert forall|i: nat| i < n implies v6_bit(ip, i) == v6_bit(net, i) by {
                assert(i == 0);
            }
        }
        if forall|i: nat| i < n ==> v6_bit(ip, i) == v6_bit(net, i) {
            assert(v6_bit(ip, 0) == v6_bit(net, 0));
        }
    } else {
        let m = (n - 1) as u8;
        lemma_v6_prefix_is_first_bits(ip, net, m);
        let s = (128 - n) as u128;
        lemma_v6_one_more_bit(ip, net, s);
        assert(v6_bit(ip, m as nat) == (((ip >> s) & 1) == 1));
        assert(v6_bit(net, m as nat) == (((net >> s) & 1) == 1));
        if v6_prefix_eq(ip, net, n) {
            assert forall|i: nat| i < n implies v6_bit(ip, i) == v6_bit(net, i) by {
                if i < m {
                }
            }
        }
        if forall|i: nat| i < n ==> v6_bit(ip, i) == v6_bit(net, i) {
            assert forall|i: nat| i < m implies v6_bit(ip, i) == v6_bit(net, i) by {
            }
            assert(v6_bit(ip, m as nat) == v6_bit(net, m as nat));
        }
    }
}

} // verus!
