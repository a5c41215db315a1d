//! IP addresses, and reading them from text as `std` does: dotted-decimal
//! IPv4 and colon-separated IPv6.
use vstd::prelude::*;
use vstd::arithmetic::power::pow;

verus! {

/// An IP address by its octets, most significant first.
#[derive(Clone, Copy, Debug, PartialEq, Eq)]
pub enum IpAddress {
    V4([u8; 4]),
    V6([u8; 16]),
}

/// An IP address and a port.
#[derive(Clone, Copy, Debug, PartialEq, Eq)]
pub struct SocketAddress {
    pub ip: IpAddress,
    pub port: u16,
}

/// Whether `b` is the ASCII code of a decimal digit.
pub open spec fn is_dec_digit(b: u8) -> bool {
    0x30 <= b <= 0x39
}

/// The number of decimal digits in `s` from `pos` on, up to the first byte
/// that is not one.
pub open spec fn digit_run(s: Seq<u8>, pos: int) -> nat
    decreases s.len() - pos,
{
    if 0 <= pos < s.len() && is_dec_digit(s[pos]) {
        1 + digit_run(s, pos + 1)
    } else {
        0
    }
}

/// The value of the decimal digits `s[from..to]`.
pub open spec fn decimal_value(s: Seq<u8>, from: int, to: int) -> nat
    decreases to - from,
{
    if to <= from {
        0
    } else {
        decimal_value(s, from, to - 1) * 10 + ((s[to - 1] - 0x30) as nat)
    }
}

/// The octet written at `pos`, and where it ends: one to three digits, no
/// leading zero unless the octet is a lone zero, at most 255.
pub open spec fn ipv4_octet_at(s: Seq<u8>, pos: int) -> Option<(u8, int)> {
    let n = digit_run(s, pos) as int;
    if n == 0 || n > 3 || (n > 1 && s[pos] == 0x30) || decimal_value(s, pos, pos + n) > 255 {
        None
    } else {
        Some((decimal_value(s, pos, pos + n) as u8, pos + n))
    }
}

/// Whether `s[pos]` is a dot.
pub open spec fn dot_at(s: Seq<u8>, pos: int) -> bool {
    0 <= pos < s.len() && s[pos] == 0x2E
}

/// Whether `s[pos]` is a colon.
pub open spec fn colon_at(s: Seq<u8>, pos: int) -> bool {
    0 <= pos < s.len() && s[pos] == 0x3A
}

/// The dotted-decimal IPv4 address written from `pos` on, and where it
/// ends: four octets separated by dots.
#[verifier::opaque]
pub open spec fn ipv4_at(s: Seq<u8>, pos: int) -> Option<(Seq<u8>, int)> {
    match ipv4_octet_at(s, pos) {
        None => None,
        Some((a, e1)) => if !dot_at(s, e1) {
            None
        } else {
            match ipv4_octet_at(s, e1 + 1) {
                None => None,
                Some((b, e2)) => if !dot_at(s, e2) {
                    None
                } else {
                    match ipv4_octet_at(s, e2 + 1) {
                        None => None,
                        Some((c, e3)) => if !dot_at(s, e3) {
                            None
                        } else {
                            match ipv4_octet_at(s, e3 + 1) {
                                None => None,
                                Some((d, e4)) => Some((seq![a, b, c, d], e4)),
                            }
                        },
                    }
                },
            }
        },
    }
}

/// The IPv4 address that the whole of `s` writes in dotted-decimal form.
pub open spec fn ipv4_from_text(s: Seq<u8>) -> Option<Seq<u8>> {
    match ipv4_at(s, 0) {
        Some((o, e)) => if e == s.len() {
            Some(o)
        } else {
            None
        },
        None => None,
    }
}

/// The value of a hexadecimal digit, if `b` is one.
pub open spec fn hex_value(b: u8) -> Option<u8> {
    if 0x30 <= b <= 0x39 {
        Some((b - 0x30) as u8)
    } else if 0x61 <= b <= 0x66 {
        Some((b - 0x61 + 10) as u8)
    } else if 0x41 <= b <= 0x46 {
        Some((b - 0x41 + 10) as u8)
    } else {
        None
    }
}

/// The number of hexadecimal digits in `s` from `pos` on.
pub open spec fn hex_run(s: Seq<u8>, pos: int) -> nat
    decreases s.len() - pos,
{
    if 0 <= pos < s.len() && hex_value(s[pos]) is Some {
        1 + hex_run(s, pos + 1)
    } else {
        0
    }
}

/// The value of the hexadecimal digits `s[from..to]`.
pub open spec fn hex_number(s: Seq<u8>, from: int, to: int) -> nat
    decreases to - from,
{
    if to <= from {
        0
    } else {
        hex_number(s, from, to - 1) * 16 + (hex_value(s[to - 1]).unwrap() as nat)
    }
}

/// Hexadecimal digits are read most significant first: the value of
/// `s[from..to]` is the value of its first part `s[from..k]`, shifted left
/// by as many hexadecimal places as the second part `s[k..to]` has digits,
/// plus the value of that second part.
pub proof fn lemma_hex_number_split(s: Seq<u8>, from: int, k: int, to: int)
    requires
        from <= k <= to,
    ensures
        hex_number(s, from, to) == hex_number(s, from, k) * pow(16, (to - k) as nat) + hex_number(
            s,
            k,
            to,
        ),
    decreases to - k,
{
    if k == to {
        assert(pow(16, 0) == 1) by {
            reveal(pow);
        }
        assert(hex_number(s, k, to) == 0);
    } else {
        lemma_hex_number_split(s, from, k, to - 1);
        let a = hex_number(s, from, k);
        let b = hex_number(s, k, to - 1);
        let p = pow(16, (to - 1 - k) as nat);
        let d = hex_value(s[to - 1]).unwrap() as nat;
        assert(pow(16, (to - k) as nat) == 16 * p) by {
            reveal(pow);
        }
        assert(hex_number(s, k, to) == b * 16 + d);
        assert((a * p + b) * 16 + d == a * (16 * p) + (b * 16 + d)) by (nonlinear_arith);
    }
}

/// The first of several hexadecimal digits is the most significant: it
/// counts sixteen to the power of the number of digits after it.
pub proof fn lemma_hex_number_first_digit(s: Seq<u8>, from: int, to: int)
    requires
        from < to,
    ensures
        hex_number(s, from, to) == (hex_value(s[from]).unwrap() as nat) * pow(
            16,
            (to - from - 1) as nat,
        ) + hex_number(s, from + 1, to),
{
    lemma_hex_number_split(s, from, from + 1, to);
    assert(hex_number(s, from, from) == 0);
    assert(hex_number(s, from, from + 1) == hex_value(s[from]).unwrap() as nat);
}

/// A group of four hexadecimal digits `d0 d1 d2 d3` is the number
/// `d0 * 4096 + d1 * 256 + d2 * 16 + d3`: the first two digits make its
/// high octet, the last two its low octet.
pub proof fn lemma_hex_group_of_four(s: Seq<u8>, pos: int)
    requires
        0 <= pos,
        hex_run(s, pos) == 4,
    ensures
        ({
            let d0 = hex_value(s[pos]).unwrap() as int;
            let d1 = hex_value(s[pos + 1]).unwrap() as int;
            let d2 = hex_value(s[pos + 2]).unwrap() as int;
            let d3 = hex_value(s[pos + 3]).unwrap() as int;
            &&& hex_group_at(s, pos) == Some(((d0 * 4096 + d1 * 256 + d2 * 16 + d3) as u16, pos + 4))
            &&& (d0 * 4096 + d1 * 256 + d2 * 16 + d3) / 256 == d0 * 16 + d1
            &&& (d0 * 4096 + d1 * 256 + d2 * 16 + d3) % 256 == d2 * 16 + d3
        }),
{
    lemma_hex_run_digits(s, pos, pos);
    lemma_hex_run_digits(s, pos, pos + 1);
    lemma_hex_run_digits(s, pos, pos + 2);
    lemma_hex_run_digits(s, pos, pos + 3);
    let d0 = hex_value(s[pos]).unwrap() as int;
    let d1 = hex_value(s[pos + 1]).unwrap() as int;
    let d2 = hex_value(s[pos + 2]).unwrap() as int;
    let d3 = hex_value(s[pos + 3]).unwrap() as int;
    assert(d0 < 16 && d1 < 16 && d2 < 16 && d3 < 16);
    assert(hex_number(s, pos, pos) == 0);
    assert(hex_number(s, pos, pos + 1) == d0);
    assert(hex_number(s, pos, pos + 2) == d0 * 16 + d1);
    assert(hex_number(s, pos, pos + 3) == (d0 * 16 + d1) * 16 + d2);
    assert(hex_number(s, pos, pos + 4) == ((d0 * 16 + d1) * 16 + d2) * 16 + d3);
    let v = d0 * 4096 + d1 * 256 + d2 * 16 + d3;
    assert(v == (d0 * 16 + d1) * 256 + (d2 * 16 + d3));
    assert(0 <= d2 * 16 + d3 < 256);
    assert(v / 256 == d0 * 16 + d1 && v % 256 == d2 * 16 + d3) by (nonlinear_arith)
        requires
            v == (d0 * 16 + d1) * 256 + (d2 * 16 + d3),
            0 <= d2 * 16 + d3 < 256,
            0 <= d0 * 16 + d1,
    ;
}

/// The IPv6 group written at `pos`, and where it ends: one to four
/// hexadecimal digits.
pub open spec fn hex_group_at(s: Seq<u8>, pos: int) -> Option<(u16, int)> {
    let n = hex_run(s, pos) as int;
    if n == 0 || n > 4 {
        None
    } else {
        Some((hex_number(s, pos, pos + n) as u16, pos + n))
    }
}

/// Where the `i`-th item of a colon-separated list starts, when the
/// previous one ended at `pos`: right there for the first item, after a
/// colon for the others.
pub open spec fn item_start(s: Seq<u8>, pos: int, i: nat) -> Option<int> {
    if i == 0 {
        Some(pos)
    } else if colon_at(s, pos) {
        Some(pos + 1)
    } else {
        None
    }
}

/// Reading the groups `i..limit` of an IPv6 address from `pos` on, as
/// `std` does: at each step an embedded IPv4 address, taken as two groups
/// and ending the list, when at least two groups are left; otherwise a
/// hexadecimal group. The list stops before the first item that is
/// neither. Gives the groups, where they end, and whether an IPv4 address
/// ended them.
pub open spec fn read_groups(s: Seq<u8>, pos: int, i: nat, limit: nat) -> (Seq<u16>, int, bool)
    decreases limit - i,
{
    if i >= limit {
        (Seq::empty(), pos, false)
    } else {
        match item_start(s, pos, i) {
            None => (Seq::empty(), pos, false),
            Some(p) => match (if i + 1 < limit { ipv4_at(s, p) } else { None }) {
                Some((o, e)) => (
                    seq![(o[0] * 256 + o[1]) as u16, (o[2] * 256 + o[3]) as u16],
                    e,
                    true,
                ),
                None => match hex_group_at(s, p) {
                    None => (Seq::empty(), pos, false),
                    Some((g, e)) => {
                        let rest = read_groups(s, e, i + 1, limit);
                        (seq![g] + rest.0, rest.1, rest.2)
                    },
                },
            },
        }
    }
}

/// A run of `n` zero groups.
pub open spec fn zero_groups(n: nat) -> Seq<u16> {
    Seq::new(n, |i: int| 0u16)
}

/// The eight groups of the IPv6 address that the whole of `s` writes: up
/// to eight groups, or a head of fewer groups (not ended by an IPv4
/// address), `::`, and a tail, the groups between them being zero.
pub open spec fn ipv6_from_text(s: Seq<u8>) -> Option<Seq<u16>> {
    let head = read_groups(s, 0, 0, 8);
    if head.0.len() == 8 {
        if head.1 == s.len() {
            Some(head.0)
        } else {
            None
        }
    } else if head.2 {
        None
    } else if !(colon_at(s, head.1) && colon_at(s, head.1 + 1)) {
        None
    } else {
        let tail = read_groups(s, head.1 + 2, 0, (8 - (head.0.len() + 1)) as nat);
        if tail.1 != s.len() {
            None
        } else {
            Some(head.0 + zero_groups((8 - head.0.len() - tail.0.len()) as nat) + tail.0)
        }
    }
}

/// The sixteen octets of eight groups, each group most significant first.
pub open spec fn groups_octets(g: Seq<u16>) -> Seq<u8> {
    Seq::new(16, |i: int| if i % 2 == 0 { (g[i / 2] / 256) as u8 } else { (g[i / 2] % 256) as u8 })
}

/// The IP address that the text with UTF-8 bytes `s` writes, as
/// `str::parse::<std::net::IpAddr>` reads it: when an IPv4 address can be
/// read from the start it must be the whole text; otherwise the text must
/// be an IPv6 address.
pub open spec fn ip_from_text(s: Seq<u8>) -> Option<IpAddress> {
    match ipv4_at(s, 0) {
        Some((o, e)) => if e == s.len() {
            Some(IpAddress::V4([o[0], o[1], o[2], o[3]]))
        } else {
            None
        },
        None => match ipv6_from_text(s) {
            Some(g) => {
                let o = groups_octets(g);
                Some(
                    IpAddress::V6(
                        [
                            o[0],
                            o[1],
                            o[2],
                            o[3],
                            o[4],
                            o[5],
                            o[6],
                            o[7],
                            o[8],
                            o[9],
                            o[10],
                            o[11],
                            o[12],
                            o[13],
                            o[14],
                            o[15],
                        ],
                    ),
                )
            },
            None => None,
        },
    }
}

/// Counts the decimal digits of `s` from `pos` on.
fn count_digits(s: &[u8], pos: usize) -> (n: usize)
    requires
        pos <= s@.len(),
    ensures
        n == digit_run(s@, pos as int),
        n <= s@.len() - pos,
{
    let mut n: usize = 0;
    while n < s.len() - pos && s[pos + n] >= 0x30 && s[pos + n] <= 0x39
        invariant
            n <= s@.len() - pos,
            digit_run(s@, pos as int) == n + digit_run(s@, (pos + n) as int),
        decreases s@.len() - pos - n,
    {
        n = n + 1;
    }
    n
}

/// The value of at most three decimal digits.
fn small_decimal(s: &[u8], from: usize, to: usize) -> (v: u16)
    requires
        from <= to <= s@.len(),
        to - from <= 3,
        forall|i: int| from <= i < to ==> is_dec_digit(#[trigger] s@[i]),
    ensures
        v == decimal_value(s@, from as int, to as int),
{
    let mut v: u16 = 0;
    let mut i: usize = from;
    while i < to
        invariant
            from <= i <= to <= s@.len(),
            to - from <= 3,
            forall|j: int| from <= j < to ==> is_dec_digit(#[trigger] s@[j]),
            v == decimal_value(s@, from as int, i as int),
            i - from == 0 ==> v == 0,
            i - from <= 1 ==> v < 10,
            i - from <= 2 ==> v < 100,
            v < 1000,
        decreases to - i,
    {
        let d = (s[i] - 0x30) as u16;
        v = v * 10 + d;
        i = i + 1;
    }
    v
}

/// Reads an IPv4 octet at `pos`.
fn read_ipv4_octet(s: &[u8], pos: usize) -> (r: Option<(u8, usize)>)
    requires
        pos <= s@.len(),
    ensures
        match ipv4_octet_at(s@, pos as int) {
            None => r is None,
            Some((v, e)) => r == Some((v, e as usize)) && pos < e <= s@.len(),
        },
{
    let len = s.len();
    let n = count_digits(s, pos);
    if n == 0 || n > 3 {
        return None;
    }
    if n > 1 && s[pos] == 0x30 {
        return None;
    }
    proof {
        assert forall|i: int| pos <= i < pos + n implies is_dec_digit(#[trigger] s@[i]) by {
            lemma_digit_run_digits(s@, pos as int, i);
        }
    }
    let v = small_decimal(s, pos, pos + n);
    if v > 255 {
        return None;
    }
    Some((v as u8, pos + n))
}

proof fn lemma_digit_run_digits(s: Seq<u8>, pos: int, i: int)
    requires
        0 <= pos <= i < pos + digit_run(s, pos),
    ensures
        is_dec_digit(s[i]),
        i < s.len(),
    decreases i - pos,
{
    if i > pos {
        lemma_digit_run_digits(s, pos + 1, i);
    }
}

/// Reads a dotted-decimal IPv4 address from `pos` on.
fn read_ipv4_at(s: &[u8], pos: usize) -> (r: Option<([u8; 4], usize)>)
    requires
        pos <= s@.len(),
    ensures
        match ipv4_at(s@, pos as int) {
            None => r is None,
            Some((o, e)) => r matches Some((a, f)) && a@ == o && f == e && e <= s@.len(),
        },
{
    reveal(ipv4_at);
    let (a, e1) = match read_ipv4_octet(s, pos) {
        Some(x) => x,
        None => return None,
    };
    if !(e1 < s.len() && s[e1] == 0x2E) {
        return None;
    }
    let (b, e2) = match read_ipv4_octet(s, e1 + 1) {
        Some(x) => x,
        None => return None,
    };
    if !(e2 < s.len() && s[e2] == 0x2E) {
        return None;
    }
    let (c, e3) = match read_ipv4_octet(s, e2 + 1) {
        Some(x) => x,
        None => return None,
    };
    if !(e3 < s.len() && s[e3] == 0x2E) {
        return None;
    }
    let (d, e4) = match read_ipv4_octet(s, e3 + 1) {
        Some(x) => x,
        None => return None,
    };
    let r = [a, b, c, d];
    assert(r@ =~= seq![a, b, c, d]);
    Some((r, e4))
}

/// Reads a whole dotted-decimal IPv4 address.
pub fn parse_ipv4(s: &[u8]) -> (r: Option<[u8; 4]>)
    ensures
        match ipv4_from_text(s@) {
            None => r is None,
            Some(o) => r matches Some(a) && a@ == o,
        },
{
    match read_ipv4_at(s, 0) {
        Some((a, e)) => if e == s.len() {
            Some(a)
        } else {
            None
        },
        None => None,
    }
}

/// Reads an IP address from the UTF-8 bytes of a text.
pub fn parse_ip(s: &[u8]) -> (r: Option<IpAddress>)
    ensures
        r == ip_from_text(s@),
{
    match read_ipv4_at(s, 0) {
        Some((o, e)) => {
            if e == s.len() {
                proof {
                    let v = ipv4_at(s@, 0).unwrap().0;
                    assert(o =~= [v[0], v[1], v[2], v[3]]) by {
                        assert(o@ == v);
                    }
                }
                Some(IpAddress::V4(o))
            } else {
                None
            }
        },
        None => match parse_ipv6(s) {
            Some(o) => {
                proof {
                    let g = groups_octets(ipv6_from_text(s@).unwrap());
                    let arr = [
                        g[0],
                        g[1],
                        g[2],
                        g[3],
                        g[4],
                        g[5],
                        g[6],
                        g[7],
                        g[8],
                        g[9],
                        g[10],
                        g[11],
                        g[12],
                        g[13],
                        g[14],
                        g[15],
                    ];
                    assert(o =~= arr) by {
                        assert(o@ =~= arr@);
                    }
                }
                Some(IpAddress::V6(o))
            },
            None => None,
        },
    }
}

} // verus!

verus! {

/// The value of a hexadecimal digit, if `b` is one.
fn hex_digit(b: u8) -> (r: Option<u8>)
    ensures
        r == hex_value(b),
{
    if 0x30 <= b && b <= 0x39 {
        Some(b - 0x30)
    } else if 0x61 <= b && b <= 0x66 {
        Some(b - 0x61 + 10)
    } else if 0x41 <= b && b <= 0x46 {
        Some(b - 0x41 + 10)
    } else {
        None
    }
}

/// Counts the hexadecimal digits of `s` from `pos` on.
fn count_hex(s: &[u8], pos: usize) -> (n: usize)
    requires
        pos <= s@.len(),
    ensures
        n == hex_run(s@, pos as int),
        n <= s@.len() - pos,
{
    let mut n: usize = 0;
    while n < s.len() - pos && hex_digit(s[pos + n]).is_some()
        invariant
            n <= s@.len() - pos,
            hex_run(s@, pos as int) == n + hex_run(s@, (pos + n) as int),
        decreases s@.len() - pos - n,
    {
        n = n + 1;
    }
    n
}

proof fn lemma_hex_run_digits(s: Seq<u8>, pos: int, i: int)
    requires
        0 <= pos <= i < pos + hex_run(s, pos),
    ensures
        hex_value(s[i]) is Some,
        i < s.len(),
    decreases i - pos,
{
    if i > pos {
        lemma_hex_run_digits(s, pos + 1, i);
    }
}

/// Reads an IPv6 group at `pos`.
fn read_hex_group(s: &[u8], pos: usize) -> (r: Option<(u16, usize)>)
    requires
        pos <= s@.len(),
    ensures
        match hex_group_at(s@, pos as int) {
            None => r is None,
            Some((g, e)) => r == Some((g, e as usize)) && pos < e <= s@.len(),
        },
{
    let len = s.len();
    let n = count_hex(s, pos);
    if n == 0 || n > 4 {
        return None;
    }
    let end = pos + n;
    let mut v: u32 = 0;
    let mut i: usize = pos;
    while i < end
        invariant
            end == pos + n,
            pos <= i <= pos + n <= s@.len(),
            1 <= n <= 4,
            n == hex_run(s@, pos as int),
            v == hex_number(s@, pos as int, i as int),
            i - pos == 0 ==> v == 0,
            i - pos <= 1 ==> v < 16,
            i - pos <= 2 ==> v < 256,
            i - pos <= 3 ==> v < 4096,
            v < 65536,
        decreases pos + n - i,
    {
        proof { lemma_hex_run_digits(s@, pos as int, i as int); }
        let d = match hex_digit(s[i]) {
            Some(d) => d,
            None => 0,
        };
        v = v * 16 + (d as u32);
        i = i + 1;
    }
    Some((v as u16, pos + n))
}

/// Where the `i`-th item of a colon-separated list starts.
fn read_item_start(s: &[u8], pos: usize, i: usize) -> (r: Option<usize>)
    requires
        pos <= s@.len(),
    ensures
        match item_start(s@, pos as int, i as nat) {
            None => r is None,
            Some(p) => r == Some(p as usize) && 0 <= p <= s@.len(),
        },
{
    if i == 0 {
        Some(pos)
    } else if pos < s.len() && s[pos] == 0x3A {
        Some(pos + 1)
    } else {
        None
    }
}

/// Reads the groups `0..limit` of an IPv6 address from `pos` on.
fn read_ipv6_groups(s: &[u8], start: usize, limit: usize) -> (r: (Vec<u16>, usize, bool))
    requires
        start <= s@.len(),
        limit <= 8,
    ensures
        (r.0@, r.1 as int, r.2) == read_groups(s@, start as int, 0, limit as nat),
        r.1 <= s@.len(),
        r.0@.len() <= limit,
{
    let len = s.len();
    let mut groups: Vec<u16> = Vec::new();
    let mut pos: usize = start;
    let mut i: usize = 0;
    while i < limit
        invariant
            len == s@.len(),
            pos <= s@.len(),
            i <= limit <= 8,
            groups@.len() == i,
            ({
                let rest = read_groups(s@, pos as int, i as nat, limit as nat);
                read_groups(s@, start as int, 0, limit as nat) == (groups@ + rest.0, rest.1, rest.2)
            }),
        decreases limit - i,
    {
        let p = match read_item_start(s, pos, i) {
            Some(p) => p,
            None => {
                assert(groups@ + Seq::<u16>::empty() =~= groups@);
                return (groups, pos, false);
            },
        };
        if i + 1 < limit {
            match read_ipv4_at(s, p) {
                Some((o, e)) => {
                    let ghost before = groups@;
                    let hi = (o[0] as u16) * 256 + (o[1] as u16);
                    let lo = (o[2] as u16) * 256 + (o[3] as u16);
                    groups.push(hi);
                    groups.push(lo);
                    proof {
                        reveal(ipv4_at);
                        let v = ipv4_at(s@, p as int).unwrap().0;
                        assert(o@ == v);
                        assert(groups@ =~= before + seq![
                            (v[0] * 256 + v[1]) as u16,
                            (v[2] * 256 + v[3]) as u16,
                        ]);
                    }
                    return (groups, e, true);
                },
                None => {},
            }
        }
        match read_hex_group(s, p) {
            None => {
                assert(groups@ + Seq::<u16>::empty() =~= groups@);
                return (groups, pos, false);
            },
            Some((g, e)) => {
                let ghost before = groups@;
                let ghost rest = read_groups(s@, e as int, (i + 1) as nat, limit as nat);
                groups.push(g);
                assert(before + (seq![g] + rest.0) =~= groups@ + rest.0);
                pos = e;
                i = i + 1;
            },
        }
    }
    assert(groups@ + Seq::<u16>::empty() =~= groups@);
    (groups, pos, false)
}

/// Reads a whole IPv6 address, as its sixteen octets.
pub fn parse_ipv6(s: &[u8]) -> (r: Option<[u8; 16]>)
    ensures
        match ipv6_from_text(s@) {
            None => r is None,
            Some(g) => r matches Some(a) && a@ == groups_octets(g),
        },
{
    let len = s.len();
    let (head, hend, hv4) = read_ipv6_groups(s, 0, 8);
    let mut full: Vec<u16> = Vec::new();
    if head.len() == 8 {
        if hend != len {
            return None;
        }
        full = head;
    } else {
        if hv4 {
            return None;
        }
        if !(hend < len && s[hend] == 0x3A && hend + 1 < len && s[hend + 1] == 0x3A) {
            return None;
        }
        let (tail, tend, _) = read_ipv6_groups(s, hend + 2, 8 - (head.len() + 1));
        if tend != len {
            return None;
        }
        let zeros = 8 - head.len() - tail.len();
        let mut i: usize = 0;
        while i < head.len()
            invariant
                i <= head@.len(),
                full@ =~= head@.subrange(0, i as int),
            decreases head@.len() - i,
        {
            full.push(head[i]);
            i = i + 1;
        }
        let mut j: usize = 0;
        while j < zeros
            invariant
                j <= zeros,
                full@ =~= head@ + zero_groups(j as nat),
            decreases zeros - j,
        {
            full.push(0);
            j = j + 1;
        }
        let mut k: usize = 0;
        while k < tail.len()
            invariant
                k <= tail@.len(),
                full@ =~= head@ + zero_groups(zeros as nat) + tail@.subrange(0, k as int),
            decreases tail@.len() - k,
        {
            full.push(tail[k]);
            k = k + 1;
        }
        assert(full@ =~= head@ + zero_groups(zeros as nat) + tail@);
    }
    assert(full@.len() == 8);
    let r = [
        (full[0] / 256) as u8,
        (full[0] % 256) as u8,
        (full[1] / 256) as u8,
        (full[1] % 256) as u8,
        (full[2] / 256) as u8,
        (full[2] % 256) as u8,
        (full[3] / 256) as u8,
        (full[3] % 256) as u8,
        (full[4] / 256) as u8,
        (full[4] % 256) as u8,
        (full[5] / 256) as u8,
        (full[5] % 256) as u8,
        (full[6] / 256) as u8,
        (full[6] % 256) as u8,
        (full[7] / 256) as u8,
        (full[7] % 256) as u8,
    ];
    assert(r@ =~= groups_octets(full@));
    Some(r)
}

} // verus!
