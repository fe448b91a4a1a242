//! Socket addresses in their textual form, as `SocketAddr::from_str` reads them.
use vstd::prelude::*;
use crate::text::{all_digits, digits_in, digits_value, split_chars, split_spec, chars_of};

verus! {

/// A parsed socket address.
#[derive(Debug, Clone, Copy, PartialEq, Eq)]
pub enum SocketAddress {
    V4 { octets: [u8; 4], port: u16 },
    V6 { segments: [u16; 8], scope_id: u32, port: u16 },
}

/// One decimal octet of a dotted IPv4 address: one to three digits, no
/// leading zero unless it is the only digit, at most 255.
pub open spec fn octet_spec(s: Seq<char>) -> Option<int> {
    if 1 <= s.len() <= 3 && all_digits(s) && !(s.len() > 1 && s[0] == '0') && digits_value(s) <= 255 {
        Some(digits_value(s))
    } else {
        None
    }
}

/// A dotted IPv4 address: exactly four octets separated by dots.
pub open spec fn ipv4_spec(s: Seq<char>) -> Option<Seq<int>> {
    let parts = split_spec(s, '.', '.');
    if parts.len() == 4 && forall|i: int| 0 <= i < 4 ==> #[trigger] octet_spec(parts[i]) is Some {
        Some(Seq::new(4, |i: int| octet_spec(parts[i])->0))
    } else {
        None
    }
}

/// A port: one or more decimal digits (leading zeros allowed), at most 65535.
pub open spec fn port_spec(s: Seq<char>) -> Option<int> {
    if s.len() > 0 && all_digits(s) && digits_value(s) <= 65535 {
        Some(digits_value(s))
    } else {
        None
    }
}

/// `a.b.c.d:port`: the octets and the port.
pub open spec fn socket_v4_spec(s: Seq<char>) -> Option<(Seq<int>, int)> {
    let parts = split_spec(s, ':', ':');
    if parts.len() == 2 && ipv4_spec(parts[0]) is Some && port_spec(parts[1]) is Some {
        Some((ipv4_spec(parts[0])->0, port_spec(parts[1])->0))
    } else {
        None
    }
}

/// A hexadecimal digit.
pub open spec fn is_hex(c: char) -> bool {
    ('0' <= c && c <= '9') || ('a' <= c && c <= 'f') || ('A' <= c && c <= 'F')
}

pub open spec fn hex_digit_value(c: char) -> int {
    if '0' <= c && c <= '9' {
        (c as int) - ('0' as int)
    } else if 'a' <= c && c <= 'f' {
        (c as int) - ('a' as int) + 10
    } else {
        (c as int) - ('A' as int) + 10
    }
}

/// The number that a string of hexadecimal digits denotes.
pub open spec fn hex_value(s: Seq<char>) -> int
    decreases s.len(),
{
    if s.len() == 0 { 0 } else { hex_value(s.drop_last()) * 16 + hex_digit_value(s.last()) }
}

/// How many hexadecimal digits follow from `p`.
pub open spec fn hex_run(d: Seq<char>, p: int) -> nat
    decreases d.len() - p,
{
    if 0 <= p < d.len() && is_hex(d[p]) { 1 + hex_run(d, p + 1) } else { 0 }
}

/// How many decimal digits follow from `p`.
pub open spec fn dec_run(d: Seq<char>, p: int) -> nat
    decreases d.len() - p,
{
    if 0 <= p < d.len() && '0' <= d[p] && d[p] <= '9' { 1 + dec_run(d, p + 1) } else { 0 }
}

/// The character `c` at `p`: the position after it.
pub open spec fn read_char(d: Seq<char>, p: int, c: char) -> Option<int> {
    if 0 <= p < d.len() && d[p] == c { Some(p + 1) } else { None }
}

/// A group of one to four hexadecimal digits at `p` (all the digits there).
pub open spec fn read_h16(d: Seq<char>, p: int) -> Option<(int, int)> {
    let r = hex_run(d, p) as int;
    if 1 <= r <= 4 { Some((hex_value(d.subrange(p, p + r)), p + r)) } else { None }
}

/// A decimal octet at `p`: all the digits there, one to three of them, no
/// leading zero unless alone, at most 255.
pub open spec fn read_octet(d: Seq<char>, p: int) -> Option<(int, int)> {
    let r = dec_run(d, p) as int;
    if 1 <= r <= 3 && !(r > 1 && d[p] == '0') && digits_value(d.subrange(p, p + r)) <= 255 {
        Some((digits_value(d.subrange(p, p + r)), p + r))
    } else {
        None
    }
}

/// A decimal number at `p` of at most `max`: all the digits there, at least one.
pub open spec fn read_number(d: Seq<char>, p: int, max: int) -> Option<(int, int)> {
    let r = dec_run(d, p) as int;
    if r >= 1 && digits_value(d.subrange(p, p + r)) <= max {
        Some((digits_value(d.subrange(p, p + r)), p + r))
    } else {
        None
    }
}

/// `k` octets separated by dots at `p`.
pub open spec fn read_octets(d: Seq<char>, p: int, k: nat) -> Option<(Seq<int>, int)>
    decreases k,
{
    if k == 0 {
        Some((Seq::empty(), p))
    } else {
        match read_octet(d, p) {
            Some((o, q)) => if k == 1 {
                Some((seq![o], q))
            } else {
                match read_char(d, q, '.') {
                    Some(q2) => match read_octets(d, q2, (k - 1) as nat) {
                        Some((rest, q3)) => Some((seq![o] + rest, q3)),
                        None => None,
                    },
                    None => None,
                }
            },
            None => None,
        }
    }
}

/// The groups of an IPv6 address read from `p`, group `i` of at most
/// `limit`: each after a colon but the first; where two groups are left, a
/// dotted IPv4 address may stand for them, and ends the reading. Reading
/// stops at the first group that is not there. Gives the groups, the
/// position after them, and whether an IPv4 address ended them.
pub open spec fn read_groups(d: Seq<char>, p: int, i: nat, limit: nat) -> (Seq<int>, int, bool)
    decreases limit - i,
{
    if i >= limit {
        (Seq::empty(), p, false)
    } else {
        let sep = if i > 0 { read_char(d, p, ':') } else { Some(p) };
        let v4 = if i + 1 < limit {
            match sep {
                Some(q) => read_octets(d, q, 4),
                None => None,
            }
        } else {
            None
        };
        match v4 {
            Some((o, q)) => (seq![o[0] * 256 + o[1], o[2] * 256 + o[3]], q, true),
            None => match sep {
                Some(q) => match read_h16(d, q) {
                    Some((g, q2)) => {
                        let (rest, r, v) = read_groups(d, q2, i + 1, limit);
                        (seq![g] + rest, r, v)
                    },
                    None => (Seq::empty(), p, false),
                },
                None => (Seq::empty(), p, false),
            },
        }
    }
}

/// An IPv6 address at `p`: eight groups, or groups on both sides of `::`
/// with zeros between them (no IPv4 address before the `::`).
pub open spec fn read_ipv6(d: Seq<char>, p: int) -> Option<(Seq<int>, int)> {
    let (head, p1, head_v4) = read_groups(d, p, 0, 8);
    if head.len() == 8 {
        Some((head, p1))
    } else if head_v4 || head.len() > 8 {
        None
    } else {
        match read_char(d, p1, ':') {
            Some(p2) => match read_char(d, p2, ':') {
                Some(p3) => {
                    let limit = (8 - (head.len() + 1)) as nat;
                    let (tail, p4, _) = read_groups(d, p3, 0, limit);
                    if head.len() + tail.len() > 7 {
                        None
                    } else {
                        Some((head + Seq::new((8 - head.len() - tail.len()) as nat, |k: int| 0int) + tail, p4))
                    }
                },
                None => None,
            },
            None => None,
        }
    }
}

/// `[address%scope]:port`: the groups, the scope (zero when absent) and the port.
pub open spec fn socket_v6_spec(d: Seq<char>) -> Option<(Seq<int>, int, int)> {
    match read_char(d, 0, '[') {
        Some(p1) => match read_ipv6(d, p1) {
            Some((segments, p2)) => {
                let (scope, p3) = match read_char(d, p2, '%') {
                    Some(q) => match read_number(d, q, u32::MAX as int) {
                        Some((sc, q2)) => (sc, q2),
                        None => (0int, p2),
                    },
                    None => (0int, p2),
                };
                match read_char(d, p3, ']') {
                    Some(p4) => match read_char(d, p4, ':') {
                        Some(p5) => match read_number(d, p5, 65535) {
                            Some((port, p6)) => if p6 == d.len() { Some((segments, scope, port)) } else { None },
                            None => None,
                        },
                        None => None,
                    },
                    None => None,
                }
            },
            None => None,
        },
        None => None,
    }
}

/// Text that denotes a socket address is not blank.
pub(crate) proof fn lemma_socket_text_nonblank(s: Seq<char>)
    requires
        socket_spec(s) is Some,
    ensures
        crate::text::trim_spec(s).len() > 0,
{
    if socket_v4_spec(s) is Some {
        let parts = split_spec(s, ':', ':');
        assert(port_spec(parts[1]) is Some);
        if s.len() == 0 {
            assert(parts == seq![Seq::<char>::empty()]);
        } else {
            let prev = split_spec(s.drop_last(), ':', ':');
            crate::text::lemma_split_nonempty(s.drop_last(), ':', ':');
            if s.last() == ':' {
                assert(parts.last().len() == 0);
            } else {
                assert(parts.last() == prev.last().push(s.last()));
                assert(crate::text::is_digit(parts[1][parts[1].len() - 1]));
            }
            crate::text::lemma_trim_nonblank(s, s.len() - 1);
        }
    } else {
        crate::text::lemma_trim_nonblank(s, 0);
    }
}

/// The address that the text `s` denotes, if any.
pub open spec fn socket_spec(s: Seq<char>) -> Option<SocketAddress> {
    match socket_v4_spec(s) {
        Some((octets, port)) => Some(
            SocketAddress::V4 {
                octets: [octets[0] as u8, octets[1] as u8, octets[2] as u8, octets[3] as u8],
                port: port as u16,
            },
        ),
        None => match socket_v6_spec(s) {
            Some((g, scope, port)) => Some(
                SocketAddress::V6 {
                    segments: [
                        g[0] as u16,
                        g[1] as u16,
                        g[2] as u16,
                        g[3] as u16,
                        g[4] as u16,
                        g[5] as u16,
                        g[6] as u16,
                        g[7] as u16,
                    ],
                    scope_id: scope as u32,
                    port: port as u16,
                },
            ),
            None => None,
        },
    }
}

fn octet_of(v: &Vec<char>) -> (r: Option<u8>)
    ensures
        match r {
            Some(x) => octet_spec(v@) == Some(x as int),
            None => octet_spec(v@) is None,
        },
{
    let n = v.len();
    if n < 1 || n > 3 {
        return None;
    }
    if n > 1 && v[0] == '0' {
        return None;
    }
    assert(v@.subrange(0, n as int) =~= v@);
    match digits_in(v, 0, n, 255) {
        Some(x) => Some(x as u8),
        None => None,
    }
}

fn port_of(v: &Vec<char>) -> (r: Option<u16>)
    ensures
        match r {
            Some(x) => port_spec(v@) == Some(x as int),
            None => port_spec(v@) is None,
        },
{
    assert(v@.subrange(0, v@.len() as int) =~= v@);
    match digits_in(v, 0, v.len(), 65535) {
        Some(x) => Some(x as u16),
        None => None,
    }
}

fn ipv4_of(v: &Vec<char>) -> (r: Option<[u8; 4]>)
    ensures
        match r {
            Some(o) => ipv4_spec(v@) is Some && ipv4_spec(v@)->0 == o@.map_values(|x: u8| x as int),
            None => ipv4_spec(v@) is None,
        },
{
    let parts = split_chars(v, '.', '.');
    let ghost ps = parts@.map_values(|p: Vec<char>| p@);
    if parts.len() != 4 {
        return None;
    }
    let mut octets: [u8; 4] = [0u8; 4];
    let mut i: usize = 0;
    while i < 4
        invariant
            i <= 4,
            parts@.len() == 4,
            ps == parts@.map_values(|p: Vec<char>| p@),
            ps == split_spec(v@, '.', '.'),
            forall|j: int| 0 <= j < i ==> #[trigger] octet_spec(ps[j]) == Some(octets@[j] as int),
        decreases 4 - i,
    {
        match octet_of(&parts[i]) {
            Some(x) => {
                octets[i] = x;
            },
            None => {
                assert(octet_spec(ps[i as int]) is None);
                return None;
            },
        }
        i = i + 1;
    }
    assert(ipv4_spec(v@)->0 =~= octets@.map_values(|x: u8| x as int));
    Some(octets)
}

fn socket_v4_of(chars: &Vec<char>) -> (r: Option<([u8; 4], u16)>)
    ensures
        match r {
            Some((o, port)) => socket_v4_spec(chars@) == Some((o@.map_values(|x: u8| x as int), port as int)),
            None => socket_v4_spec(chars@) is None,
        },
{
    let parts = split_chars(chars, ':', ':');
    let ghost ps = parts@.map_values(|p: Vec<char>| p@);
    if parts.len() != 2 {
        return None;
    }
    assert(ps[0] == parts@[0]@ && ps[1] == parts@[1]@);
    let ip = ipv4_of(&parts[0]);
    let port = port_of(&parts[1]);
    match (ip, port) {
        (Some(octets), Some(port)) => Some((octets, port)),
        _ => None,
    }
}

/// Reads a socket address from its textual form.
pub fn parse_socket_address(s: &str) -> (r: Option<SocketAddress>)
    ensures
        r == socket_spec(s@),
{
    let chars = chars_of(s);
    if let Some((octets, port)) = socket_v4_of(&chars) {
        let ghost o = octets@.map_values(|x: u8| x as int);
        assert(octets@[0] == o[0] as u8 && octets@[1] == o[1] as u8 && octets@[2] == o[2] as u8 && octets@[3] == o[3] as u8);
        assert(octets == [o[0] as u8, o[1] as u8, o[2] as u8, o[3] as u8]) by {
            assert(octets@ =~= [o[0] as u8, o[1] as u8, o[2] as u8, o[3] as u8]@);
        }
        return Some(SocketAddress::V4 { octets, port });
    }
    match socket_v6_of(&chars) {
        Some((segments, scope_id, port)) => {
            let ghost g = segments@.map_values(|x: u16| x as int);
            assert(segments == [
                g[0] as u16,
                g[1] as u16,
                g[2] as u16,
                g[3] as u16,
                g[4] as u16,
                g[5] as u16,
                g[6] as u16,
                g[7] as u16,
            ]) by {
                assert(segments@ =~= [
                    g[0] as u16,
                    g[1] as u16,
                    g[2] as u16,
                    g[3] as u16,
                    g[4] as u16,
                    g[5] as u16,
                    g[6] as u16,
                    g[7] as u16,
                ]@);
            }
            Some(SocketAddress::V6 { segments, scope_id, port })
        },
        None => None,
    }
}

fn hex_digit(c: char) -> (r: Option<u32>)
    ensures
        match r {
            Some(v) => is_hex(c) && v == hex_digit_value(c),
            None => !is_hex(c),
        },
{
    if '0' <= c && c <= '9' {
        Some(c as u32 - '0' as u32)
    } else if 'a' <= c && c <= 'f' {
        Some(c as u32 - 'a' as u32 + 10)
    } else if 'A' <= c && c <= 'F' {
        Some(c as u32 - 'A' as u32 + 10)
    } else {
        None
    }
}

proof fn lemma_dec_run_bound(d: Seq<char>, p: int)
    requires
        0 <= p,
    ensures
        p + dec_run(d, p) <= d.len() || dec_run(d, p) == 0,
        forall|k: int| p <= k < p + dec_run(d, p) ==> '0' <= #[trigger] d[k] && d[k] <= '9',
        p + dec_run(d, p) < d.len() ==> !('0' <= d[p + dec_run(d, p)] && d[p + dec_run(d, p)] <= '9'),
    decreases d.len() - p,
{
    if 0 <= p < d.len() && '0' <= d[p] && d[p] <= '9' {
        lemma_dec_run_bound(d, p + 1);
    }
}

proof fn lemma_hex_run_bound(d: Seq<char>, p: int)
    requires
        0 <= p,
    ensures
        p + hex_run(d, p) <= d.len() || hex_run(d, p) == 0,
        forall|k: int| p <= k < p + hex_run(d, p) ==> is_hex(#[trigger] d[k]),
        p + hex_run(d, p) < d.len() ==> !is_hex(d[p + hex_run(d, p)]),
    decreases d.len() - p,
{
    if 0 <= p < d.len() && is_hex(d[p]) {
        lemma_hex_run_bound(d, p + 1);
    }
}

/// The position after the decimal digits at `p`.
fn dec_end(d: &Vec<char>, p: usize) -> (r: usize)
    requires
        p <= d@.len(),
    ensures
        r == p + dec_run(d@, p as int),
        r <= d@.len(),
{
    let mut q = p;
    while q < d.len() && '0' <= d[q] && d[q] <= '9'
        invariant
            p <= q <= d@.len(),
            dec_run(d@, p as int) == (q - p) + dec_run(d@, q as int),
        decreases d@.len() - q,
    {
        q = q + 1;
    }
    q
}

/// The position after the hexadecimal digits at `p`.
fn hex_end(d: &Vec<char>, p: usize) -> (r: usize)
    requires
        p <= d@.len(),
    ensures
        r == p + hex_run(d@, p as int),
        r <= d@.len(),
{
    let mut q = p;
    while q < d.len() && hex_digit(d[q]).is_some()
        invariant
            p <= q <= d@.len(),
            hex_run(d@, p as int) == (q - p) + hex_run(d@, q as int),
        decreases d@.len() - q,
    {
        q = q + 1;
    }
    q
}

fn char_at(d: &Vec<char>, p: usize, c: char) -> (r: Option<usize>)
    requires
        p <= d@.len(),
    ensures
        match r {
            Some(q) => read_char(d@, p as int, c) == Some(q as int) && q <= d@.len(),
            None => read_char(d@, p as int, c) is None,
        },
{
    if p < d.len() && d[p] == c { Some(p + 1) } else { None }
}

fn h16_at(d: &Vec<char>, p: usize) -> (r: Option<(u16, usize)>)
    requires
        p <= d@.len(),
    ensures
        match r {
            Some((g, q)) => read_h16(d@, p as int) == Some((g as int, q as int)) && q <= d@.len(),
            None => read_h16(d@, p as int) is None,
        },
{
    let end = hex_end(d, p);
    let run = end - p;
    if run < 1 || run > 4 {
        return None;
    }
    let ghost s = d@.subrange(p as int, (p + run) as int);
    let mut value: u32 = 0;
    let mut k: usize = 0;
    proof {
        lemma_hex_run_bound(d@, p as int);
    }
    while k < run
        invariant
            k <= run <= 4,
            p + run <= d@.len(),
            end == p + run,
            s == d@.subrange(p as int, (p + run) as int),
            forall|j: int| p <= j < p + run ==> is_hex(#[trigger] d@[j]),
            value == hex_value(s.take(k as int)),
            value < pow16(k as nat),
        decreases run - k,
    {
        proof {
            lemma_pow16_small();
        }
        let c = d[p + k];
        assert(c == s[k as int]);
        let v = hex_digit(c).unwrap();
        proof {
            assert(s.take(k + 1).drop_last() =~= s.take(k as int));
            lemma_pow16_step(k as nat);
        }
        value = value * 16 + v;
        k = k + 1;
    }
    assert(s.take(run as int) =~= s);
    proof {
        lemma_pow16_small();
    }
    Some((value as u16, end))
}

pub open spec fn pow16(k: nat) -> int
    decreases k,
{
    if k == 0 { 1 } else { 16 * pow16((k - 1) as nat) }
}

proof fn lemma_pow16_step(k: nat)
    ensures
        pow16(k + 1) == 16 * pow16(k),
{
}

proof fn lemma_pow16_small()
    ensures
        pow16(0) == 1,
        pow16(1) == 16,
        pow16(2) == 256,
        pow16(3) == 4096,
        pow16(4) == 65536,
{
    reveal_with_fuel(pow16, 5);
}

fn octet_at(d: &Vec<char>, p: usize) -> (r: Option<(u8, usize)>)
    requires
        p <= d@.len(),
    ensures
        match r {
            Some((o, q)) => read_octet(d@, p as int) == Some((o as int, q as int)) && q <= d@.len(),
            None => read_octet(d@, p as int) is None,
        },
{
    let end = dec_end(d, p);
    let run = end - p;
    if run < 1 || run > 3 {
        return None;
    }
    if run > 1 && d[p] == '0' {
        return None;
    }
    match digits_in(d, p, end, 255) {
        Some(v) => Some((v as u8, end)),
        None => {
            proof {
                lemma_dec_run_bound(d@, p as int);
                assert forall|k: int| 0 <= k < run implies #[trigger] crate::text::is_digit(d@.subrange(p as int, (p + run) as int)[k]) by {
                    assert(d@.subrange(p as int, (p + run) as int)[k] == d@[p + k]);
                }
            }
            None
        },
    }
}

fn number_at(d: &Vec<char>, p: usize, max: u64) -> (r: Option<(u64, usize)>)
    requires
        p <= d@.len(),
    ensures
        match r {
            Some((v, q)) => read_number(d@, p as int, max as int) == Some((v as int, q as int)) && q <= d@.len(),
            None => read_number(d@, p as int, max as int) is None,
        },
{
    let end = dec_end(d, p);
    let run = end - p;
    if run < 1 {
        return None;
    }
    match digits_in(d, p, end, max) {
        Some(v) => Some((v, end)),
        None => {
            proof {
                lemma_dec_run_bound(d@, p as int);
                assert forall|k: int| 0 <= k < run implies #[trigger] crate::text::is_digit(d@.subrange(p as int, (p + run) as int)[k]) by {
                    assert(d@.subrange(p as int, (p + run) as int)[k] == d@[p + k]);
                }
            }
            None
        },
    }
}

fn ipv4_at(d: &Vec<char>, p: usize) -> (r: Option<([u8; 4], usize)>)
    requires
        p <= d@.len(),
    ensures
        match r {
            Some((o, q)) => read_octets(d@, p as int, 4) == Some((o@.map_values(|x: u8| x as int), q as int))
                && q <= d@.len(),
            None => read_octets(d@, p as int, 4) is None,
        },
{
    proof {
        reveal_with_fuel(read_octets, 5);
    }
    let (a, p1) = match octet_at(d, p) { Some(x) => x, None => return None };
    let p1b = match char_at(d, p1, '.') { Some(x) => x, None => return None };
    let (b, p2) = match octet_at(d, p1b) { Some(x) => x, None => return None };
    let p2b = match char_at(d, p2, '.') { Some(x) => x, None => return None };
    let (c, p3) = match octet_at(d, p2b) { Some(x) => x, None => return None };
    let p3b = match char_at(d, p3, '.') { Some(x) => x, None => return None };
    let (e, p4) = match octet_at(d, p3b) { Some(x) => x, None => return None };
    let o: [u8; 4] = [a, b, c, e];
    proof {
        assert(o@.map_values(|x: u8| x as int) =~= seq![a as int] + (seq![b as int] + (seq![c as int] + seq![e as int])));
    }
    Some((o, p4))
}

proof fn lemma_groups_bounded(d: Seq<char>, p: int, i: nat, limit: nat)
    requires
        i <= limit,
    ensures
        read_groups(d, p, i, limit).0.len() <= limit - i,
    decreases limit - i,
{
    if i < limit {
        let sep = if i > 0 { read_char(d, p, ':') } else { Some(p) };
        if let Some(q) = sep {
            if let Some((g, q2)) = read_h16(d, q) {
                lemma_groups_bounded(d, q2, i + 1, limit);
            }
        }
    }
}

/// The groups of an IPv6 address at `p`, at most `limit` of them.
fn groups_at(d: &Vec<char>, p: usize, limit: usize) -> (r: (Vec<u16>, usize, bool))
    requires
        p <= d@.len(),
        limit <= 8,
    ensures
        r.0@.map_values(|g: u16| g as int) == read_groups(d@, p as int, 0, limit as nat).0,
        r.1 == read_groups(d@, p as int, 0, limit as nat).1,
        r.2 == read_groups(d@, p as int, 0, limit as nat).2,
        r.1 <= d@.len(),
{
    let ghost full = read_groups(d@, p as int, 0, limit as nat);
    let mut groups: Vec<u16> = Vec::new();
    let mut pos = p;
    let mut i: usize = 0;
    while i < limit
        invariant
            i <= limit <= 8,
            pos <= d@.len(),
            groups@.len() == i,
            full == read_groups(d@, p as int, 0, limit as nat),
            ({
                let rest = read_groups(d@, pos as int, i as nat, limit as nat);
                full == (groups@.map_values(|g: u16| g as int) + rest.0, rest.1, rest.2)
            }),
        decreases limit - i,
    {
        let ghost before = groups@.map_values(|g: u16| g as int);
        let sep = if i > 0 { char_at(d, pos, ':') } else { Some(pos) };
        if i + 1 < limit {
            if let Some(q) = sep {
                if let Some((o, q2)) = ipv4_at(d, q) {
                    let hi: u16 = o[0] as u16 * 256 + o[1] as u16;
                    let lo: u16 = o[2] as u16 * 256 + o[3] as u16;
                    groups.push(hi);
                    groups.push(lo);
                    proof {
                        let ov = o@.map_values(|x: u8| x as int);
                        assert(ov[0] == o@[0] && ov[1] == o@[1] && ov[2] == o@[2] && ov[3] == o@[3]);
                        assert(groups@.map_values(|g: u16| g as int) =~= before + seq![
                            ov[0] * 256 + ov[1],
                            ov[2] * 256 + ov[3],
                        ]);
                    }
                    return (groups, q2, true);
                }
            }
        }
        match sep {
            Some(q) => match h16_at(d, q) {
                Some((g, q2)) => {
                    groups.push(g);
                    proof {
                        let rest = read_groups(d@, q2 as int, (i + 1) as nat, limit as nat);
                        assert(groups@.map_values(|x: u16| x as int) =~= before + seq![g as int]);
                        assert(before + (seq![g as int] + rest.0) =~= (before + seq![g as int]) + rest.0);
                    }
                    pos = q2;
                    i = i + 1;
                },
                None => {
                    assert(before + Seq::<int>::empty() =~= before);
                    return (groups, pos, false);
                },
            },
            None => {
                assert(before + Seq::<int>::empty() =~= before);
                return (groups, pos, false);
            },
        }
    }
    proof {
        let before = groups@.map_values(|g: u16| g as int);
        assert(before + Seq::<int>::empty() =~= before);
    }
    (groups, pos, false)
}

/// An IPv6 address at `p`.
fn ipv6_at(d: &Vec<char>, p: usize) -> (r: Option<([u16; 8], usize)>)
    requires
        p <= d@.len(),
    ensures
        match r {
            Some((g, q)) => read_ipv6(d@, p as int) == Some((g@.map_values(|x: u16| x as int), q as int))
                && q <= d@.len(),
            None => read_ipv6(d@, p as int) is None,
        },
{
    let (head, p1, head_v4) = groups_at(d, p, 8);
    proof {
        lemma_groups_bounded(d@, p as int, 0, 8);
    }
    let ghost hs = head@.map_values(|x: u16| x as int);
    let mut out: [u16; 8] = [0u16; 8];
    let mut k: usize = 0;
    while k < head.len()
        invariant
            k <= head@.len() <= 8,
            forall|j: int| 0 <= j < k ==> out@[j] == head@[j],
            forall|j: int| k <= j < 8 ==> out@[j] == 0,
        decreases head@.len() - k,
    {
        out[k] = head[k];
        k = k + 1;
    }
    if head.len() == 8 {
        assert(out@.map_values(|x: u16| x as int) =~= hs);
        return Some((out, p1));
    }
    if head_v4 {
        return None;
    }
    let p2 = match char_at(d, p1, ':') { Some(x) => x, None => return None };
    let p3 = match char_at(d, p2, ':') { Some(x) => x, None => return None };
    let limit = 8 - (head.len() + 1);
    let (tail, p4, _) = groups_at(d, p3, limit);
    proof {
        lemma_groups_bounded(d@, p3 as int, 0, limit as nat);
    }
    let ghost ts = tail@.map_values(|x: u16| x as int);
    let h = head.len();
    let t = tail.len();
    let mut j: usize = 0;
    while j < t
        invariant
            h + t <= 7,
            t == tail@.len(),
            h == head@.len(),
            j <= t,
            forall|m: int| 0 <= m < h ==> out@[m] == head@[m],
            forall|m: int| h <= m < 8 - t ==> out@[m] == 0,
            forall|m: int| 0 <= m < j ==> out@[8 - t + m] == tail@[m],
            forall|m: int| 8 - t + j <= m < 8 ==> out@[m] == 0,
        decreases t - j,
    {
        out[8 - t + j] = tail[j];
        j = j + 1;
    }
    proof {
        let zeros = Seq::new((8 - h - t) as nat, |k: int| 0int);
        let want = hs + zeros + ts;
        assert forall|m: int| 0 <= m < 8 implies out@.map_values(|x: u16| x as int)[m] == want[m] by {
            if m < h {
            } else if m < 8 - t {
            } else {
                assert(out@[m] == tail@[m - (8 - t)]);
            }
        }
        assert(out@.map_values(|x: u16| x as int) =~= want);
    }
    Some((out, p4))
}

/// `[address%scope]:port` read from the whole of `d`.
fn socket_v6_of(d: &Vec<char>) -> (r: Option<([u16; 8], u32, u16)>)
    ensures
        match r {
            Some((g, scope, port)) => socket_v6_spec(d@) == Some((g@.map_values(|x: u16| x as int), scope as int, port as int)),
            None => socket_v6_spec(d@) is None,
        },
{
    let p1 = match char_at(d, 0, '[') { Some(x) => x, None => return None };
    let (segments, p2) = match ipv6_at(d, p1) { Some(x) => x, None => return None };
    let mut scope: u32 = 0;
    let mut p3 = p2;
    if let Some(q) = char_at(d, p2, '%') {
        if let Some((sc, q2)) = number_at(d, q, 0xffff_ffff) {
            scope = sc as u32;
            p3 = q2;
        }
    }
    let p4 = match char_at(d, p3, ']') { Some(x) => x, None => return None };
    let p5 = match char_at(d, p4, ':') { Some(x) => x, None => return None };
    let (port, p6) = match number_at(d, p5, 65535) { Some(x) => x, None => return None };
    if p6 != d.len() {
        return None;
    }
    Some((segments, scope, port as u16))
}

} // verus!
