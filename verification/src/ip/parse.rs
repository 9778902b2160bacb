use vstd::prelude::*;
use crate::ip::addr::{IpAddr, Ipv4Addr, Ipv6Addr};
use crate::ip::format::dotted_decimal;
use crate::text::{
    all_digits, decimal, digits_value, is_digit, lemma_decimal_digits, lemma_read_decimal,
};

verus! {

/// `s[pos..end]` is the decimal numeral of `v`, and no digit follows it.
pub open spec fn is_octet_at(s: Seq<char>, pos: int, end: int, v: u8) -> bool {
    &&& 0 <= pos < end <= s.len()
    &&& s.subrange(pos, end) == decimal(v as nat)
    &&& (end == s.len() || !is_digit(s[end]))
}

/// At one position at most one octet can be read.
proof fn lemma_octet_unique(s: Seq<char>, pos: int, e1: int, v1: u8, e2: int, v2: u8)
    requires
        is_octet_at(s, pos, e1, v1),
        is_octet_at(s, pos, e2, v2),
    ensures
        e1 == e2,
        v1 == v2,
{
    lemma_decimal_digits(v1 as nat);
    lemma_decimal_digits(v2 as nat);
    if e1 < e2 {
        assert(s[e1] == s.subrange(pos, e2)[e1 - pos]);
    } else if e2 < e1 {
        assert(s[e2] == s.subrange(pos, e1)[e2 - pos]);
    }
}

/// Reads the octet written in decimal at `pos`.
fn parse_octet(text: &str, n: usize, pos: usize) -> (r: Option<(u8, usize)>)
    requires
        n == text@.len(),
        pos <= n,
    ensures
        match r {
            Some((v, end)) => is_octet_at(text@, pos as int, end as int, v),
            None => forall|v: u8, end: int| !is_octet_at(text@, pos as int, end, v),
        },
{
    let ghost s = text@;
    let mut i: usize = pos;
    let mut v: u32 = 0;
    proof {
        assert(s.subrange(pos as int, pos as int) =~= Seq::<char>::empty());
    }
    loop
        invariant_except_break
            n == s.len(),
            s == text@,
            pos <= i <= n,
            i - pos <= 4,
            all_digits(s.subrange(pos as int, i as int)),
            v == digits_value(s.subrange(pos as int, i as int)),
            i - pos == 0 ==> v == 0,
            i - pos <= 1 ==> v <= 9,
            i - pos <= 2 ==> v <= 99,
            i - pos <= 3 ==> v <= 999,
            v <= 9999,
        ensures
            n == s.len(),
            s == text@,
            pos <= i <= n,
            i - pos <= 4,
            all_digits(s.subrange(pos as int, i as int)),
            v == digits_value(s.subrange(pos as int, i as int)),
            v <= 9999,
            i - pos == 4 || i == n || !is_digit(s[i as int]),
        decreases n - i,
    {
        if i >= n || i - pos >= 4 {
            break;
        }
        let c = text.get_char(i);
        if !(c >= '0' && c <= '9') {
            break;
        }
        proof {
            let next = s.subrange(pos as int, i + 1);
            assert(next.drop_last() =~= s.subrange(pos as int, i as int));
            assert(next.last() == c);
            assert(all_digits(next));
        }
        v = v * 10 + ((c as u32) - ('0' as u32));
        i = i + 1;
    }
    let k = i - pos;
    let ghost read = s.subrange(pos as int, i as int);
    if k == 0 {
        proof {
            assert forall|u: u8, end: int| !is_octet_at(s, pos as int, end, u) by {
                if is_octet_at(s, pos as int, end, u) {
                    lemma_decimal_digits(u as nat);
                    assert(s[pos as int] == decimal(u as nat)[0]);
                }
            }
        }
        return None;
    }
    if k == 4 {
        proof {
            assert forall|u: u8, end: int| !is_octet_at(s, pos as int, end, u) by {
                if is_octet_at(s, pos as int, end, u) {
                    lemma_decimal_digits(u as nat);
                    assert(s[end] == read[end - pos]);
                }
            }
        }
        return None;
    }
    if k > 1 && text.get_char(pos) == '0' {
        proof {
            assert forall|u: u8, end: int| !is_octet_at(s, pos as int, end, u) by {
                if is_octet_at(s, pos as int, end, u) {
                    lemma_decimal_digits(u as nat);
                    assert(decimal(u as nat)[0] == s[pos as int]);
                    assert(s[pos + 1] == read[1]);
                }
            }
        }
        return None;
    }
    proof {
        assert(read[0] == s[pos as int]);
        lemma_read_decimal(read);
    }
    if v > 255 {
        proof {
            assert forall|u: u8, end: int| !is_octet_at(s, pos as int, end, u) by {
                if is_octet_at(s, pos as int, end, u) {
                    lemma_decimal_digits(u as nat);
                    if end < i {
                        assert(s[end] == read[end - pos]);
                    }
                    if end > i {
                        assert(s[i as int] == s.subrange(pos as int, end)[i - pos]);
                    }
                    assert(end == i);
                }
            }
        }
        return None;
    }
    Some((v as u8, i))
}

/// `text` is the dot-decimal notation of an IPv4 address, read at the
/// positions where its octets end.
proof fn lemma_dotted_decimal_parts(a: Ipv4Addr)
    ensures
        ({
            let s = dotted_decimal(a);
            let e0 = decimal(a.0 as nat).len() as int;
            let e1 = e0 + 1 + decimal(a.1 as nat).len();
            let e2 = e1 + 1 + decimal(a.2 as nat).len();
            &&& is_octet_at(s, 0, e0, a.0)
            &&& s[e0] == '.'
            &&& is_octet_at(s, e0 + 1, e1, a.1)
            &&& s[e1] == '.'
            &&& is_octet_at(s, e1 + 1, e2, a.2)
            &&& s[e2] == '.'
            &&& is_octet_at(s, e2 + 1, s.len() as int, a.3)
        }),
{
    let s = dotted_decimal(a);
    let d0 = decimal(a.0 as nat);
    let d1 = decimal(a.1 as nat);
    let d2 = decimal(a.2 as nat);
    let d3 = decimal(a.3 as nat);
    lemma_decimal_digits(a.0 as nat);
    lemma_decimal_digits(a.1 as nat);
    lemma_decimal_digits(a.2 as nat);
    lemma_decimal_digits(a.3 as nat);
    let e0 = d0.len() as int;
    let e1 = e0 + 1 + d1.len();
    let e2 = e1 + 1 + d2.len();
    assert(s.subrange(0, e0) =~= d0);
    assert(s.subrange(e0 + 1, e1) =~= d1);
    assert(s.subrange(e1 + 1, e2) =~= d2);
    assert(s.subrange(e2 + 1, s.len() as int) =~= d3);
    assert(s[e0] == '.');
    assert(s[e1] == '.');
    assert(s[e2] == '.');
}

/// Distinct IPv4 addresses have distinct dot-decimal texts, so reading the
/// text of an address gives that address back.
pub proof fn lemma_dotted_decimal_injective(a: Ipv4Addr, b: Ipv4Addr)
    requires
        dotted_decimal(a) == dotted_decimal(b),
    ensures
        a == b,
{
    let s = dotted_decimal(a);
    lemma_dotted_decimal_parts(a);
    lemma_dotted_decimal_parts(b);
    let a0 = decimal(a.0 as nat).len() as int;
    let a1 = a0 + 1 + decimal(a.1 as nat).len();
    let a2 = a1 + 1 + decimal(a.2 as nat).len();
    let b0 = decimal(b.0 as nat).len() as int;
    let b1 = b0 + 1 + decimal(b.1 as nat).len();
    let b2 = b1 + 1 + decimal(b.2 as nat).len();
    lemma_octet_unique(s, 0, a0, a.0, b0, b.0);
    lemma_octet_unique(s, a0 + 1, a1, a.1, b1, b.1);
    lemma_octet_unique(s, a1 + 1, a2, a.2, b2, b.2);
    lemma_octet_unique(s, a2 + 1, s.len() as int, a.3, s.len() as int, b.3);
}

/// Reads an IPv4 address in dot-decimal notation: four decimal octets
/// (0 to 255, without leading zeros) separated by dots, and nothing else.
pub fn parse_ipv4(text: &str) -> (r: Option<Ipv4Addr>)
    ensures
        match r {
            Some(a) => text@ == dotted_decimal(a),
            None => forall|a: Ipv4Addr| text@ != dotted_decimal(a),
        },
{
    let ghost s = text@;
    let n = text.unicode_len();
    let r0 = parse_octet(text, n, 0);
    let (a, p1) = match r0 {
        Some(x) => x,
        None => {
            proof {
                assert forall|x: Ipv4Addr| s != dotted_decimal(x) by {
                    if s == dotted_decimal(x) {
                        lemma_dotted_decimal_parts(x);
                    }
                }
            }
            return None;
        },
    };
    if p1 >= n || text.get_char(p1) != '.' {
        proof {
            assert forall|x: Ipv4Addr| s != dotted_decimal(x) by {
                if s == dotted_decimal(x) {
                    lemma_dotted_decimal_parts(x);
                    lemma_octet_unique(s, 0, p1 as int, a, decimal(x.0 as nat).len() as int, x.0);
                }
            }
        }
        return None;
    }
    let r1 = parse_octet(text, n, p1 + 1);
    let (b, p2) = match r1 {
        Some(x) => x,
        None => {
            proof {
                assert forall|x: Ipv4Addr| s != dotted_decimal(x) by {
                    if s == dotted_decimal(x) {
                        lemma_dotted_decimal_parts(x);
                        lemma_octet_unique(s, 0, p1 as int, a, decimal(x.0 as nat).len() as int, x.0);
                    }
                }
            }
            return None;
        },
    };
    if p2 >= n || text.get_char(p2) != '.' {
        proof {
            assert forall|x: Ipv4Addr| s != dotted_decimal(x) by {
                if s == dotted_decimal(x) {
                    lemma_dotted_decimal_parts(x);
                    let e0 = decimal(x.0 as nat).len() as int;
                    lemma_octet_unique(s, 0, p1 as int, a, e0, x.0);
                    lemma_octet_unique(s, e0 + 1, p2 as int, b, e0 + 1 + decimal(x.1 as nat).len(), x.1);
                }
            }
        }
        return None;
    }
    let r2 = parse_octet(text, n, p2 + 1);
    let (c, p3) = match r2 {
        Some(x) => x,
        None => {
            proof {
                assert forall|x: Ipv4Addr| s != dotted_decimal(x) by {
                    if s == dotted_decimal(x) {
                        lemma_dotted_decimal_parts(x);
                        let e0 = decimal(x.0 as nat).len() as int;
                        lemma_octet_unique(s, 0, p1 as int, a, e0, x.0);
                        lemma_octet_unique(s, e0 + 1, p2 as int, b, e0 + 1 + decimal(x.1 as nat).len(), x.1);
                    }
                }
            }
            return None;
        },
    };
    if p3 >= n || text.get_char(p3) != '.' {
        proof {
            assert forall|x: Ipv4Addr| s != dotted_decimal(x) by {
                if s == dotted_decimal(x) {
                    lemma_dotted_decimal_parts(x);
                    let e0 = decimal(x.0 as nat).len() as int;
                    let e1 = e0 + 1 + decimal(x.1 as nat).len();
                    lemma_octet_unique(s, 0, p1 as int, a, e0, x.0);
                    lemma_octet_unique(s, e0 + 1, p2 as int, b, e1, x.1);
                    lemma_octet_unique(s, e1 + 1, p3 as int, c, e1 + 1 + decimal(x.2 as nat).len(), x.2);
                }
            }
        }
        return None;
    }
    let r3 = parse_octet(text, n, p3 + 1);
    let (d, p4) = match r3 {
        Some(x) => x,
        None => {
            proof {
                assert forall|x: Ipv4Addr| s != dotted_decimal(x) by {
                    if s == dotted_decimal(x) {
                        lemma_dotted_decimal_parts(x);
                        let e0 = decimal(x.0 as nat).len() as int;
                        let e1 = e0 + 1 + decimal(x.1 as nat).len();
                        lemma_octet_unique(s, 0, p1 as int, a, e0, x.0);
                        lemma_octet_unique(s, e0 + 1, p2 as int, b, e1, x.1);
                        lemma_octet_unique(s, e1 + 1, p3 as int, c, e1 + 1 + decimal(x.2 as nat).len(), x.2);
                    }
                }
            }
            return None;
        },
    };
    if p4 != n {
        proof {
            assert forall|x: Ipv4Addr| s != dotted_decimal(x) by {
                if s == dotted_decimal(x) {
                    lemma_dotted_decimal_parts(x);
                    let e0 = decimal(x.0 as nat).len() as int;
                    let e1 = e0 + 1 + decimal(x.1 as nat).len();
                    let e2 = e1 + 1 + decimal(x.2 as nat).len();
                    lemma_octet_unique(s, 0, p1 as int, a, e0, x.0);
                    lemma_octet_unique(s, e0 + 1, p2 as int, b, e1, x.1);
                    lemma_octet_unique(s, e1 + 1, p3 as int, c, e2, x.2);
                    lemma_octet_unique(s, e2 + 1, p4 as int, d, s.len() as int, x.3);
                }
            }
        }
        return None;
    }
    let addr = Ipv4Addr(a, b, c, d);
    proof {
        assert(s =~= s.subrange(0, p1 as int) + seq!['.'] + s.subrange(p1 + 1, p2 as int) + seq!['.']
            + s.subrange(p2 + 1, p3 as int) + seq!['.'] + s.subrange(p3 + 1, p4 as int));
    }
    Some(addr)
}

/// The address that an IPv4 lookup service answered with, if the answer is
/// an IPv4 address in dot-decimal notation.
pub fn parse_ipv4_web_response(text_ip_address: &str) -> (r: Option<IpAddr>)
    ensures
        match r {
            Some(IpAddr::V4(a)) => text_ip_address@ == dotted_decimal(a),
            Some(IpAddr::V6(_)) => false,
            None => forall|a: Ipv4Addr| text_ip_address@ != dotted_decimal(a),
        },
{
    match parse_ipv4(text_ip_address) {
        Some(a) => Some(IpAddr::V4(a)),
        None => None,
    }
}

/// A hexadecimal digit character, of either case.
pub open spec fn is_hex_digit(c: char) -> bool {
    ('0' <= c && c <= '9') || ('a' <= c && c <= 'f') || ('A' <= c && c <= 'F')
}

/// The value of a hexadecimal digit character.
pub open spec fn hex_digit_value(c: char) -> int {
    if c <= '9' {
        c as int - '0' as int
    } else if c <= 'F' {
        c as int - 'A' as int + 10
    } else {
        c as int - 'a' as int + 10
    }
}

/// The number that the hexadecimal digits `s` denote.
pub open spec fn hex_digits_value(s: Seq<char>) -> nat
    decreases s.len(),
{
    if s.len() == 0 {
        0
    } else {
        16 * hex_digits_value(s.drop_last()) + (hex_digit_value(s.last()) as nat)
    }
}

/// A group of an IPv6 address written in hexadecimal: one to four digits,
/// leading zeros allowed.
pub open spec fn hex_group(p: Seq<char>) -> Option<u16> {
    if 1 <= p.len() <= 4 && (forall|i: int| 0 <= i < p.len() ==> is_hex_digit(#[trigger] p[i])) {
        Some(hex_digits_value(p) as u16)
    } else {
        None
    }
}

/// `i` is the index of the first colon of `s`.
pub open spec fn is_first_colon(s: Seq<char>, i: int) -> bool {
    0 <= i < s.len() && s[i] == ':' && forall|j: int| 0 <= j < i ==> s[j] != ':'
}

/// The pieces of `s` between its colons, in order.
pub open spec fn colon_pieces(s: Seq<char>) -> Seq<Seq<char>>
    decreases s.len(),
{
    if exists|i: int| is_first_colon(s, i) {
        let i = choose|i: int| is_first_colon(s, i);
        seq![s.take(i)] + colon_pieces(s.skip(i + 1))
    } else {
        seq![s]
    }
}

/// The two groups that hold an IPv4 address.
pub open spec fn ipv4_groups(a: Ipv4Addr) -> Seq<u16> {
    seq![(a.0 as int * 256 + a.1 as int) as u16, (a.2 as int * 256 + a.3 as int) as u16]
}

/// The groups that one piece stands for: one written in hexadecimal, or,
/// where `v4` allows it, two written as an IPv4 address in dot-decimal
/// notation.
pub open spec fn piece_groups(p: Seq<char>, v4: bool) -> Option<Seq<u16>> {
    match hex_group(p) {
        Some(v) => Some(seq![v]),
        None => if v4 && exists|a: Ipv4Addr| p == dotted_decimal(a) {
            Some(ipv4_groups(choose|a: Ipv4Addr| p == dotted_decimal(a)))
        } else {
            None
        },
    }
}

/// The groups that a list of pieces stands for; only the last piece may be
/// an IPv4 address, and only where `v4_last` allows it.
pub open spec fn pieces_groups(ps: Seq<Seq<char>>, v4_last: bool) -> Option<Seq<u16>>
    decreases ps.len(),
{
    if ps.len() == 0 {
        Some(Seq::empty())
    } else if ps.len() == 1 {
        piece_groups(ps[0], v4_last)
    } else {
        match (hex_group(ps[0]), pieces_groups(ps.skip(1), v4_last)) {
            (Some(v), Some(rest)) => Some(seq![v] + rest),
            _ => None,
        }
    }
}

/// The groups that colon-separated text stands for; empty text stands for none.
pub open spec fn text_groups(s: Seq<char>, v4_last: bool) -> Option<Seq<u16>> {
    if s.len() == 0 {
        Some(Seq::empty())
    } else {
        pieces_groups(colon_pieces(s), v4_last)
    }
}

/// `"::"` begins at `i` in `s`.
pub open spec fn double_colon_at(s: Seq<char>, i: int) -> bool {
    0 <= i && i + 1 < s.len() && s[i] == ':' && s[i + 1] == ':'
}

/// `i` is where the first `"::"` of `s` begins.
pub open spec fn is_first_double_colon(s: Seq<char>, i: int) -> bool {
    &&& double_colon_at(s, i)
    &&& forall|j: int| 0 <= j < i ==> !#[trigger] double_colon_at(s, j)
}

/// The address with the eight groups `g`.
pub open spec fn groups_addr(g: Seq<u16>) -> Ipv6Addr {
    Ipv6Addr(g[0], g[1], g[2], g[3], g[4], g[5], g[6], g[7])
}

/// `n` zero groups.
pub open spec fn zero_groups(n: nat) -> Seq<u16> {
    Seq::new(n, |k: int| 0u16)
}

/// The IPv6 address that text denotes, if any. The text is eight groups
/// separated by colons, each one to four hexadecimal digits, the last two of
/// which may be written as an IPv4 address in dot-decimal notation; or the
/// first `"::"` stands for one or more zero groups, the groups before it being
/// hexadecimal and those after it possibly ending in an IPv4 address.
pub open spec fn ipv6_of_text(s: Seq<char>) -> Option<Ipv6Addr> {
    if exists|i: int| is_first_double_colon(s, i) {
        let i = choose|i: int| is_first_double_colon(s, i);
        match (text_groups(s.take(i), false), text_groups(s.skip(i + 2), true)) {
            (Some(h), Some(t)) => if h.len() + t.len() <= 7 {
                Some(groups_addr(h + zero_groups((8 - h.len() - t.len()) as nat) + t))
            } else {
                None
            },
            _ => None,
        }
    } else {
        match text_groups(s, true) {
            Some(g) => if g.len() == 8 {
                Some(groups_addr(g))
            } else {
                None
            },
            None => None,
        }
    }
}

/// Reads the hexadecimal group `text[from..to]`.
fn hex_group_at(text: &str, from: usize, to: usize) -> (r: Option<u16>)
    requires
        from <= to <= text@.len(),
    ensures
        r == hex_group(text@.subrange(from as int, to as int)),
{
    let ghost s = text@;
    let ghost p = s.subrange(from as int, to as int);
    if to - from < 1 || to - from > 4 {
        return None;
    }
    let mut i: usize = from;
    let mut v: u32 = 0;
    proof {
        assert(s.subrange(from as int, from as int) =~= Seq::<char>::empty());
    }
    while i < to
        invariant
            s == text@,
            from <= i <= to <= s.len(),
            1 <= to - from <= 4,
            p == s.subrange(from as int, to as int),
            forall|k: int| from <= k < i ==> is_hex_digit(#[trigger] s[k]),
            v == hex_digits_value(s.subrange(from as int, i as int)),
            i - from <= 1 ==> v <= 15,
            i - from <= 2 ==> v <= 255,
            i - from <= 3 ==> v <= 4095,
            v <= 65535,
        decreases to - i,
    {
        let c = text.get_char(i);
        let d: u32 = if c >= '0' && c <= '9' {
            (c as u32) - ('0' as u32)
        } else if c >= 'a' && c <= 'f' {
            (c as u32) - ('a' as u32) + 10
        } else if c >= 'A' && c <= 'F' {
            (c as u32) - ('A' as u32) + 10
        } else {
            proof {
                assert(p[i - from] == c);
                assert(!is_hex_digit(p[i - from]));
            }
            return None;
        };
        proof {
            let next = s.subrange(from as int, i + 1);
            assert(next.drop_last() =~= s.subrange(from as int, i as int));
            assert(next.last() == c);
            assert(d as int == hex_digit_value(c));
        }
        v = v * 16 + d;
        i = i + 1;
    }
    proof {
        assert forall|k: int| 0 <= k < p.len() implies is_hex_digit(#[trigger] p[k]) by {
            assert(p[k] == s[from + k]);
        }
    }
    Some(v as u16)
}

/// Index of the first colon of `text[from..to]`, or `to` where there is none.
fn find_colon(text: &str, from: usize, to: usize) -> (c: usize)
    requires
        from <= to <= text@.len(),
    ensures
        from <= c <= to,
        forall|j: int| from <= j < c ==> text@[j] != ':',
        c < to ==> text@[c as int] == ':',
{
    let mut c: usize = from;
    while c < to
        invariant
            from <= c <= to <= text@.len(),
            forall|j: int| from <= j < c ==> text@[j] != ':',
        decreases to - c,
    {
        if text.get_char(c) == ':' {
            return c;
        }
        c = c + 1;
    }
    c
}

/// How a text splits at its first colon.
pub(crate) proof fn lemma_colon_pieces(x: Seq<char>, j: int)
    requires
        0 <= j <= x.len(),
        forall|k: int| 0 <= k < j ==> x[k] != ':',
        j == x.len() || x[j] == ':',
    ensures
        j == x.len() ==> colon_pieces(x) == seq![x],
        j < x.len() ==> colon_pieces(x) == seq![x.take(j)] + colon_pieces(x.skip(j + 1)),
{
    if j < x.len() {
        assert(is_first_colon(x, j));
        let i = choose|i: int| is_first_colon(x, i);
        assert(i == j) by {
            if i < j {
                assert(x[i] != ':');
            } else if j < i {
                assert(x[j] != ':');
            }
        }
    } else {
        assert(!exists|i: int| is_first_colon(x, i));
    }
}

/// The groups of the piece `text[from..to]` (see `piece_groups`).
fn piece_groups_at(text: &str, from: usize, to: usize, v4: bool) -> (r: Option<Vec<u16>>)
    requires
        from <= to <= text@.len(),
    ensures
        match r {
            Some(g) => piece_groups(text@.subrange(from as int, to as int), v4) == Some(g@),
            None => piece_groups(text@.subrange(from as int, to as int), v4) is None,
        },
{
    let ghost p = text@.subrange(from as int, to as int);
    match hex_group_at(text, from, to) {
        Some(v) => {
            let mut g: Vec<u16> = Vec::new();
            g.push(v);
            assert(g@ =~= seq![v]);
            Some(g)
        },
        None => {
            if !v4 {
                return None;
            }
            let piece = text.substring_char(from, to);
            match parse_ipv4(piece) {
                Some(a) => {
                    proof {
                        assert(piece@ == p);
                        let c = choose|b: Ipv4Addr| p == dotted_decimal(b);
                        lemma_dotted_decimal_injective(a, c);
                    }
                    let mut g: Vec<u16> = Vec::new();
                    g.push((a.0 as u16) * 256 + (a.1 as u16));
                    g.push((a.2 as u16) * 256 + (a.3 as u16));
                    assert(g@ =~= ipv4_groups(a));
                    Some(g)
                },
                None => {
                    proof {
                        assert(piece@ == p);
                    }
                    None
                },
            }
        },
    }
}

/// `acc` followed by what `o` holds, if anything.
pub open spec fn after(acc: Seq<u16>, o: Option<Seq<u16>>) -> Option<Seq<u16>> {
    match o {
        Some(g) => Some(acc + g),
        None => None,
    }
}

/// The groups of the colon-separated text `text[from..to]` (see `text_groups`).
fn text_groups_at(text: &str, from: usize, to: usize, v4_last: bool) -> (r: Option<Vec<u16>>)
    requires
        from <= to <= text@.len(),
    ensures
        match r {
            Some(g) => text_groups(text@.subrange(from as int, to as int), v4_last) == Some(g@),
            None => text_groups(text@.subrange(from as int, to as int), v4_last) is None,
        },
{
    let ghost s = text@;
    let ghost whole = s.subrange(from as int, to as int);
    let mut acc: Vec<u16> = Vec::new();
    if from == to {
        assert(acc@ =~= Seq::<u16>::empty());
        return Some(acc);
    }
    let mut start: usize = from;
    proof {
        assert(after(acc@, pieces_groups(colon_pieces(whole), v4_last)) =~= pieces_groups(
            colon_pieces(whole),
            v4_last,
        )) by {
            match pieces_groups(colon_pieces(whole), v4_last) {
                Some(g) => {
                    assert(acc@ + g =~= g);
                },
                None => {},
            }
        }
    }
    loop
        invariant
            s == text@,
            from <= start <= to <= s.len(),
            from < to,
            whole == s.subrange(from as int, to as int),
            text_groups(whole, v4_last) == after(
                acc@,
                pieces_groups(colon_pieces(s.subrange(start as int, to as int)), v4_last),
            ),
        decreases to - start,
    {
        let ghost x = s.subrange(start as int, to as int);
        let c = find_colon(text, start, to);
        proof {
            lemma_colon_pieces(x, c - start);
        }
        if c == to {
            proof {
                assert(colon_pieces(x) == seq![x]);
                assert(pieces_groups(seq![x], v4_last) == piece_groups(seq![x][0], v4_last));
            }
            match piece_groups_at(text, start, to, v4_last) {
                Some(g) => {
                    let ghost before = acc@;
                    let mut k: usize = 0;
                    while k < g.len()
                        invariant
                            k <= g@.len(),
                            acc@ == before + g@.subrange(0, k as int),
                        decreases g@.len() - k,
                    {
                        acc.push(g[k]);
                        proof {
                            assert(g@.subrange(0, k + 1) =~= g@.subrange(0, k as int).push(g@[k as int]));
                        }
                        k = k + 1;
                    }
                    proof {
                        assert(g@.subrange(0, g@.len() as int) =~= g@);
                    }
                    return Some(acc);
                },
                None => {
                    return None;
                },
            }
        }
        proof {
            let ps = colon_pieces(x);
            let rest = colon_pieces(x.skip(c - start + 1));
            assert(x.take(c - start) =~= s.subrange(start as int, c as int));
            assert(x.skip(c - start + 1) =~= s.subrange(c + 1, to as int));
            assert(ps == seq![x.take(c - start)] + rest);
            assert(rest.len() >= 1) by {
                lemma_colon_pieces_nonempty(x.skip(c - start + 1));
            }
            assert(ps[0] == x.take(c - start));
            assert(ps.skip(1) =~= rest);
        }
        match hex_group_at(text, start, c) {
            Some(v) => {
                proof {
                    let rest = pieces_groups(colon_pieces(s.subrange(c + 1, to as int)), v4_last);
                    match rest {
                        Some(g) => {
                            assert(acc@.push(v) + g =~= acc@ + (seq![v] + g));
                        },
                        None => {},
                    }
                }
                acc.push(v);
                start = c + 1;
            },
            None => {
                return None;
            },
        }
    }
}

/// Text always splits into at least one piece.
proof fn lemma_colon_pieces_nonempty(x: Seq<char>)
    ensures
        colon_pieces(x).len() >= 1,
    decreases x.len(),
{
    if exists|i: int| is_first_colon(x, i) {
        let i = choose|i: int| is_first_colon(x, i);
        lemma_colon_pieces_nonempty(x.skip(i + 1));
    }
}

/// Where the first `"::"` of `text` begins, if anywhere.
fn find_double_colon(text: &str, n: usize) -> (r: Option<usize>)
    requires
        n == text@.len(),
    ensures
        match r {
            Some(i) => is_first_double_colon(text@, i as int),
            None => !exists|i: int| is_first_double_colon(text@, i),
        },
{
    let mut i: usize = 0;
    while i < n && i + 1 < n
        invariant
            n == text@.len(),
            i <= n,
            forall|j: int| 0 <= j < i ==> !#[trigger] double_colon_at(text@, j),
        decreases n - i,
    {
        if text.get_char(i) == ':' && text.get_char(i + 1) == ':' {
            return Some(i);
        }
        i = i + 1;
    }
    proof {
        assert forall|j: int| !is_first_double_colon(text@, j) by {
            if is_first_double_colon(text@, j) {
                assert(double_colon_at(text@, j));
            }
        }
    }
    None
}

/// Reads an IPv6 address (see `ipv6_of_text`).
pub fn parse_ipv6(text: &str) -> (r: Option<Ipv6Addr>)
    ensures
        r == ipv6_of_text(text@),
{
    let ghost s = text@;
    let n = text.unicode_len();
    match find_double_colon(text, n) {
        Some(i) => {
            proof {
                let c = choose|j: int| is_first_double_colon(s, j);
                assert(c == i as int) by {
                    if c < i {
                        assert(!double_colon_at(s, c));
                    } else if (i as int) < c {
                        assert(!double_colon_at(s, i as int));
                    }
                }
                assert(s.subrange(0, i as int) =~= s.take(i as int));
                assert(s.subrange(i + 2, n as int) =~= s.skip(i + 2));
            }
            let h = match text_groups_at(text, 0, i, false) {
                Some(h) => h,
                None => {
                    return None;
                },
            };
            let t = match text_groups_at(text, i + 2, n, true) {
                Some(t) => t,
                None => {
                    return None;
                },
            };
            if h.len() > 7 || t.len() > 7 - h.len() {
                return None;
            }
            let zeros = 8 - h.len() - t.len();
            let mut g: Vec<u16> = Vec::new();
            let mut k: usize = 0;
            while k < h.len()
                invariant
                    k <= h@.len(),
                    g@ == h@.subrange(0, k as int),
                decreases h@.len() - k,
            {
                g.push(h[k]);
                proof {
                    assert(h@.subrange(0, k + 1) =~= h@.subrange(0, k as int).push(h@[k as int]));
                }
                k = k + 1;
            }
            let mut z: usize = 0;
            while z < zeros
                invariant
                    k == h@.len(),
                    z <= zeros,
                    g@ == h@ + zero_groups(z as nat),
                decreases zeros - z,
            {
                g.push(0);
                proof {
                    assert(h@.subrange(0, k as int) =~= h@);
                    assert(zero_groups((z + 1) as nat) =~= zero_groups(z as nat).push(0u16));
                }
                z = z + 1;
            }
            proof {
                assert(h@.subrange(0, h@.len() as int) =~= h@);
                assert(zero_groups(0) =~= Seq::<u16>::empty());
            }
            let ghost mid = g@;
            let mut k2: usize = 0;
            while k2 < t.len()
                invariant
                    k2 <= t@.len(),
                    g@ == mid + t@.subrange(0, k2 as int),
                decreases t@.len() - k2,
            {
                g.push(t[k2]);
                proof {
                    assert(t@.subrange(0, k2 + 1) =~= t@.subrange(0, k2 as int).push(t@[k2 as int]));
                }
                k2 = k2 + 1;
            }
            proof {
                assert(t@.subrange(0, t@.len() as int) =~= t@);
            }
            Some(Ipv6Addr(g[0], g[1], g[2], g[3], g[4], g[5], g[6], g[7]))
        },
        None => {
            proof {
                assert(s.subrange(0, n as int) =~= s);
            }
            let g = match text_groups_at(text, 0, n, true) {
                Some(g) => g,
                None => {
                    return None;
                },
            };
            if g.len() != 8 {
                return None;
            }
            Some(Ipv6Addr(g[0], g[1], g[2], g[3], g[4], g[5], g[6], g[7]))
        },
    }
}

/// The address that an IPv6 lookup service answered with, if the answer is
/// an IPv6 address.
pub fn parse_ipv6_web_response(text_ip_address: &str) -> (r: Option<IpAddr>)
    ensures
        r == (match ipv6_of_text(text_ip_address@) {
            Some(a) => Some(IpAddr::V6(a)),
            None => None,
        }),
{
    match parse_ipv6(text_ip_address) {
        Some(a) => Some(IpAddr::V6(a)),
        None => None,
    }
}

} // verus!
