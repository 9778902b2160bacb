use vstd::prelude::*;
use crate::ip::addr::{IpAddr, Ipv4Addr, Ipv6Addr};
use crate::text::{decimal, decimal_text, hex, hex_text};

verus! {

/// Dot-decimal notation of an IPv4 address.
pub open spec fn dotted_decimal(a: Ipv4Addr) -> Seq<char> {
    decimal(a.0 as nat) + seq!['.'] + decimal(a.1 as nat) + seq!['.'] + decimal(a.2 as nat)
        + seq!['.'] + decimal(a.3 as nat)
}

/// Number of consecutive zero segments of `s` starting at index `i`.
pub open spec fn zero_run(s: Seq<u16>, i: int) -> nat
    decreases s.len() - i,
{
    if i < 0 || i >= s.len() || s[i] != 0 {
        0
    } else {
        1 + zero_run(s, i + 1)
    }
}

/// `start` begins a longest run of zero segments of `s`, and no earlier
/// index begins a run as long.
pub open spec fn is_first_longest_zero_run(s: Seq<u16>, start: int) -> bool {
    &&& 0 <= start < s.len()
    &&& forall|j: int| 0 <= j < s.len() ==> zero_run(s, j) <= zero_run(s, start)
    &&& forall|j: int| 0 <= j < start ==> zero_run(s, j) < zero_run(s, start)
}

/// Where the first longest run of zero segments of `s` begins.
pub open spec fn first_longest_zero_run(s: Seq<u16>) -> int {
    choose|start: int| is_first_longest_zero_run(s, start)
}

/// The segments written in hexadecimal and separated by colons.
pub open spec fn hex_groups(s: Seq<u16>) -> Seq<char>
    decreases s.len(),
{
    if s.len() == 0 {
        Seq::empty()
    } else if s.len() == 1 {
        hex(s[0] as nat)
    } else {
        hex_groups(s.drop_last()) + seq![':'] + hex(s.last() as nat)
    }
}

/// The address is an IPv4-mapped one, `::ffff:a.b.c.d`.
pub open spec fn is_ipv4_mapped(a: Ipv6Addr) -> bool {
    a.0 == 0 && a.1 == 0 && a.2 == 0 && a.3 == 0 && a.4 == 0 && a.5 == 0xffff
}

/// The IPv4 address held in the low 32 bits of an IPv6 address.
pub open spec fn low_ipv4(a: Ipv6Addr) -> Ipv4Addr {
    Ipv4Addr((a.6 / 256) as u8, (a.6 % 256) as u8, (a.7 / 256) as u8, (a.7 % 256) as u8)
}

/// The text of an IPv6 address in its recommended form (RFC 5952):
/// IPv4-mapped addresses as `::ffff:` and dot-decimal notation; otherwise
/// lowercase hexadecimal segments, with the first longest run of two or more
/// zero segments written as `::`.
pub open spec fn spec_ipv6_text(a: Ipv6Addr) -> Seq<char> {
    if is_ipv4_mapped(a) {
        seq![':', ':', 'f', 'f', 'f', 'f', ':'] + dotted_decimal(low_ipv4(a))
    } else {
        let s = a.view_segments();
        let start = first_longest_zero_run(s);
        let len = zero_run(s, start);
        if len > 1 {
            hex_groups(s.take(start)) + seq![':', ':'] + hex_groups(s.skip(start + len))
        } else {
            hex_groups(s)
        }
    }
}

/// The textual form of an address.
pub open spec fn ip_text(ip: IpAddr) -> Seq<char> {
    match ip {
        IpAddr::V4(a) => dotted_decimal(a),
        IpAddr::V6(a) => spec_ipv6_text(a),
    }
}

/// Writes an IPv4 address in dot-decimal notation.
pub fn ipv4_text(a: &Ipv4Addr) -> (text: String)
    ensures
        text@ == dotted_decimal(*a),
{
    proof {
        reveal_strlit(".");
    }
    let mut text = decimal_text(a.0 as u128);
    text.append(".");
    text.append(decimal_text(a.1 as u128).as_str());
    text.append(".");
    text.append(decimal_text(a.2 as u128).as_str());
    text.append(".");
    text.append(decimal_text(a.3 as u128).as_str());
    text
}

/// Length of the run of zero segments starting at `i`.
fn zero_run_at(segs: &[u16; 8], i: usize) -> (n: usize)
    requires
        i <= 8,
    ensures
        n == zero_run(segs@, i as int),
        i + n <= 8,
{
    let mut j: usize = i;
    while j < 8 && segs[j] == 0
        invariant
            segs@.len() == 8,
            i <= j <= 8,
            zero_run(segs@, i as int) == (j - i) + zero_run(segs@, j as int),
        decreases 8 - j,
    {
        j = j + 1;
    }
    j - i
}

/// Where the first longest run of zero segments begins, and its length.
fn longest_zero_run(segs: &[u16; 8]) -> (r: (usize, usize))
    ensures
        is_first_longest_zero_run(segs@, r.0 as int),
        r.1 == zero_run(segs@, r.0 as int),
        r.0 + r.1 <= 8,
{
    let mut best: usize = 0;
    let mut best_len: usize = zero_run_at(segs, 0);
    let mut i: usize = 1;
    while i < 8
        invariant
            segs@.len() == 8,
            1 <= i <= 8,
            best < i,
            best_len == zero_run(segs@, best as int),
            best + best_len <= 8,
            forall|j: int| 0 <= j < i ==> zero_run(segs@, j) <= best_len,
            forall|j: int| 0 <= j < best ==> zero_run(segs@, j) < best_len,
        decreases 8 - i,
    {
        let r = zero_run_at(segs, i);
        if r > best_len {
            best = i;
            best_len = r;
        }
        i = i + 1;
    }
    assert forall|j: int| 0 <= j < segs@.len() implies zero_run(segs@, j) <= best_len by {}
    (best, best_len)
}

/// Two starts that both begin a first longest run are the same.
proof fn lemma_first_longest_zero_run_unique(s: Seq<u16>, a: int, b: int)
    requires
        is_first_longest_zero_run(s, a),
        is_first_longest_zero_run(s, b),
    ensures
        a == b,
{
    if a < b {
        assert(zero_run(s, a) < zero_run(s, b));
        assert(zero_run(s, b) <= zero_run(s, a));
    } else if b < a {
        assert(zero_run(s, b) < zero_run(s, a));
        assert(zero_run(s, a) <= zero_run(s, b));
    }
}

/// Writes `segs[from..to]` in hexadecimal, separated by colons.
fn hex_groups_text(segs: &[u16; 8], from: usize, to: usize) -> (text: String)
    requires
        from <= to <= 8,
    ensures
        text@ == hex_groups(segs@.subrange(from as int, to as int)),
{
    proof {
        reveal_strlit(":");
        assert(segs@.subrange(from as int, from as int) =~= Seq::<u16>::empty());
    }
    let mut text = String::new();
    let mut i: usize = from;
    while i < to
        invariant
            segs@.len() == 8,
            from <= i <= to <= 8,
            text@ == hex_groups(segs@.subrange(from as int, i as int)),
        decreases to - i,
    {
        let ghost prev = segs@.subrange(from as int, i as int);
        let ghost next = segs@.subrange(from as int, i + 1);
        proof {
            assert(next.drop_last() =~= prev);
            assert(next.last() == segs@[i as int]);
        }
        let ghost before = text@;
        if i > from {
            text.append(":");
            proof {
                reveal_strlit(":");
                assert(":"@ =~= seq![':']);
                assert(text@ =~= before + seq![':']);
            }
        }
        let h = hex_text(segs[i]);
        text.append(h.as_str());
        proof {
            if i == from {
                assert(prev.len() == 0);
                assert(next.len() == 1);
                assert(text@ =~= hex(next[0] as nat));
            } else {
                assert(text@ =~= hex_groups(next.drop_last()) + seq![':'] + hex(next.last() as nat));
            }
        }
        i = i + 1;
    }
    text
}

/// Writes an IPv6 address in its recommended textual form.
pub fn ipv6_text(a: &Ipv6Addr) -> (text: String)
    ensures
        text@ == spec_ipv6_text(*a),
{
    proof {
        reveal_strlit("::ffff:");
        reveal_strlit("::");
    }
    if a.0 == 0 && a.1 == 0 && a.2 == 0 && a.3 == 0 && a.4 == 0 && a.5 == 0xffff {
        let v4 = Ipv4Addr((a.6 / 256) as u8, (a.6 % 256) as u8, (a.7 / 256) as u8, (a.7 % 256) as u8);
        let mut text = String::from_str("::ffff:");
        text.append(ipv4_text(&v4).as_str());
        return text;
    }
    let segs = a.segments();
    let (start, len) = longest_zero_run(&segs);
    proof {
        let s = a.view_segments();
        assert(segs@ == s);
        lemma_first_longest_zero_run_unique(s, start as int, first_longest_zero_run(s));
        assert(s.subrange(0, start as int) =~= s.take(start as int));
        assert(s.subrange((start + len) as int, 8) =~= s.skip(start + len));
        assert(s.subrange(0, 8) =~= s);
    }
    if len > 1 {
        let mut text = hex_groups_text(&segs, 0, start);
        text.append("::");
        text.append(hex_groups_text(&segs, start + len, 8).as_str());
        text
    } else {
        hex_groups_text(&segs, 0, 8)
    }
}

impl IpAddr {
    /// The textual form of the address, as its `Display` impl writes it.
    pub fn to_text(&self) -> (text: String)
        ensures
            text@ == ip_text(*self),
    {
        match self {
            IpAddr::V4(a) => ipv4_text(a),
            IpAddr::V6(a) => ipv6_text(a),
        }
    }
}

} // verus!
