//! Reading back the text that the library writes for an address.

use vstd::prelude::*;
use crate::ip::addr::{Ipv4Addr, Ipv6Addr};
use crate::ip::format::{
    dotted_decimal, first_longest_zero_run, hex_groups, is_first_longest_zero_run, is_ipv4_mapped,
    low_ipv4, spec_ipv6_text, zero_run,
};
use crate::ip::parse::{
    colon_pieces, double_colon_at, groups_addr, hex_digit_value, hex_digits_value, hex_group,
    ipv4_groups, ipv6_of_text, is_first_colon, is_first_double_colon, is_hex_digit, piece_groups,
    pieces_groups, text_groups, zero_groups, lemma_colon_pieces, lemma_dotted_decimal_injective,
};
use crate::text::{decimal, hex, hex_digit_chars, is_digit, lemma_decimal_digits};

verus! {

/// Each lowercase hexadecimal digit character is a hexadecimal digit of its
/// index's value.
proof fn lemma_hex_digit_chars(d: int)
    requires
        0 <= d < 16,
    ensures
        is_hex_digit(hex_digit_chars()[d]),
        hex_digit_value(hex_digit_chars()[d]) == d,
{
    let c = hex_digit_chars()[d];
    if d == 0 {
        assert(c == '0');
    } else if d == 1 {
        assert(c == '1');
    } else if d == 2 {
        assert(c == '2');
    } else if d == 3 {
        assert(c == '3');
    } else if d == 4 {
        assert(c == '4');
    } else if d == 5 {
        assert(c == '5');
    } else if d == 6 {
        assert(c == '6');
    } else if d == 7 {
        assert(c == '7');
    } else if d == 8 {
        assert(c == '8');
    } else if d == 9 {
        assert(c == '9');
    } else if d == 10 {
        assert(c == 'a');
    } else if d == 11 {
        assert(c == 'b');
    } else if d == 12 {
        assert(c == 'c');
    } else if d == 13 {
        assert(c == 'd');
    } else if d == 14 {
        assert(c == 'e');
    } else {
        assert(c == 'f');
    }
}

/// The hexadecimal numeral of `n` is made of hexadecimal digits, denotes
/// `n`, and has at most four digits when `n` fits in a segment.
proof fn lemma_hex_numeral(n: nat)
    ensures
        hex(n).len() >= 1,
        forall|i: int| 0 <= i < hex(n).len() ==> is_hex_digit(#[trigger] hex(n)[i]),
        hex_digits_value(hex(n)) == n,
        n < 16 ==> hex(n).len() == 1,
        n < 256 ==> hex(n).len() <= 2,
        n < 4096 ==> hex(n).len() <= 3,
        n < 65536 ==> hex(n).len() <= 4,
    decreases n,
{
    if n < 16 {
        lemma_hex_digit_chars(n as int);
        assert(hex(n).drop_last() =~= Seq::<char>::empty());
        assert(hex_digits_value(hex(n)) == 16 * hex_digits_value(Seq::<char>::empty())
            + hex_digit_value(hex(n).last()));
    } else {
        let q = n / 16;
        let r = n % 16;
        lemma_hex_numeral(q);
        lemma_hex_digit_chars(r as int);
        let s = hex(n);
        assert(s.drop_last() =~= hex(q));
        assert(s.last() == hex_digit_chars()[r as int]);
        assert forall|i: int| 0 <= i < s.len() implies is_hex_digit(#[trigger] s[i]) by {
            if i < s.len() - 1 {
                assert(s[i] == hex(q)[i]);
            }
        }
        assert(n == 16 * q + r) by (nonlinear_arith)
            requires
                q == n / 16,
                r == n % 16,
        ;
    }
}

/// A segment written in hexadecimal reads back as that segment.
proof fn lemma_hex_group_of_hex(v: u16)
    ensures
        hex_group(hex(v as nat)) == Some(v),
{
    lemma_hex_numeral(v as nat);
}

/// No hexadecimal digit is a colon.
proof fn lemma_hex_digit_not_colon(c: char)
    requires
        is_hex_digit(c),
    ensures
        c != ':',
{
}

/// The hexadecimal numeral of a number holds no colon.
proof fn lemma_hex_no_colon(n: nat)
    ensures
        hex(n).len() >= 1,
        forall|i: int| 0 <= i < hex(n).len() ==> #[trigger] hex(n)[i] != ':',
{
    lemma_hex_numeral(n);
    assert forall|i: int| 0 <= i < hex(n).len() implies #[trigger] hex(n)[i] != ':' by {
        lemma_hex_digit_not_colon(hex(n)[i]);
    }
}

/// Index of the first colon of `x`, or its length where it has none.
proof fn first_colon_index(x: Seq<char>) -> (j: int)
    ensures
        0 <= j <= x.len(),
        forall|k: int| 0 <= k < j ==> x[k] != ':',
        j == x.len() || x[j] == ':',
    decreases x.len(),
{
    if x.len() == 0 {
        0
    } else if x[0] == ':' {
        0
    } else {
        let j = first_colon_index(x.skip(1));
        assert forall|k: int| 0 <= k < j + 1 implies x[k] != ':' by {
            if k > 0 {
                assert(x[k] == x.skip(1)[k - 1]);
            }
        }
        j + 1
    }
}

/// Appending a colon and a colon-free piece appends that piece to the pieces.
proof fn lemma_colon_pieces_append(x: Seq<char>, y: Seq<char>)
    requires
        forall|k: int| 0 <= k < y.len() ==> y[k] != ':',
    ensures
        colon_pieces(x + seq![':'] + y) == colon_pieces(x) + seq![y],
    decreases x.len(),
{
    let s = x + seq![':'] + y;
    let j = first_colon_index(x);
    if j < x.len() {
        lemma_colon_pieces(x, j);
        lemma_colon_pieces(s, j);
        assert(s.take(j) =~= x.take(j));
        assert(s.skip(j + 1) =~= x.skip(j + 1) + seq![':'] + y);
        lemma_colon_pieces_append(x.skip(j + 1), y);
        assert(colon_pieces(s) =~= colon_pieces(x) + seq![y]);
    } else {
        lemma_colon_pieces(x, j);
        lemma_colon_pieces(s, j);
        assert(s.take(j) =~= x);
        assert(s.skip(j + 1) =~= y);
        lemma_colon_pieces(y, y.len() as int);
        assert(colon_pieces(s) =~= colon_pieces(x) + seq![y]);
    }
}

/// The hexadecimal numerals of the segments `s`, one piece each.
spec fn hex_pieces(s: Seq<u16>) -> Seq<Seq<char>> {
    Seq::new(s.len(), |k: int| hex(s[k] as nat))
}

/// Segments written in hexadecimal and separated by colons split back into
/// their numerals.
proof fn lemma_colon_pieces_of_hex_groups(s: Seq<u16>)
    requires
        s.len() >= 1,
    ensures
        colon_pieces(hex_groups(s)) == hex_pieces(s),
    decreases s.len(),
{
    let h = hex(s.last() as nat);
    lemma_hex_no_colon(s.last() as nat);
    if s.len() == 1 {
        lemma_colon_pieces(h, h.len() as int);
        assert(hex_pieces(s) =~= seq![h]);
    } else {
        let d = s.drop_last();
        lemma_colon_pieces_of_hex_groups(d);
        lemma_colon_pieces_append(hex_groups(d), h);
        assert(hex_pieces(s) =~= hex_pieces(d) + seq![h]);
    }
}

/// Hexadecimal numerals of segments stand for those segments.
proof fn lemma_pieces_groups_of_hex(s: Seq<u16>, v4: bool)
    requires
        s.len() >= 1,
    ensures
        pieces_groups(hex_pieces(s), v4) == Some(s),
    decreases s.len(),
{
    let ps = hex_pieces(s);
    lemma_hex_group_of_hex(s[0]);
    if s.len() == 1 {
        assert(seq![s[0]] =~= s);
    } else {
        assert(ps.skip(1) =~= hex_pieces(s.skip(1)));
        lemma_pieces_groups_of_hex(s.skip(1), v4);
        assert(seq![s[0]] + s.skip(1) =~= s);
    }
}

/// Colon-separated hexadecimal segments hold no `"::"`, and neither begin
/// nor end with a colon.
proof fn lemma_hex_groups_shape(s: Seq<u16>)
    ensures
        s.len() == 0 ==> hex_groups(s).len() == 0,
        s.len() >= 1 ==> hex_groups(s).len() >= 1,
        s.len() >= 1 ==> hex_groups(s)[0] != ':',
        s.len() >= 1 ==> hex_groups(s).last() != ':',
        forall|j: int| !#[trigger] double_colon_at(hex_groups(s), j),
    decreases s.len(),
{
    if s.len() == 1 {
        lemma_hex_no_colon(s[0] as nat);
        let t = hex_groups(s);
        assert forall|j: int| !#[trigger] double_colon_at(t, j) by {
            if double_colon_at(t, j) {
                assert(t[j] != ':');
            }
        }
    } else if s.len() >= 2 {
        let d = s.drop_last();
        let x = hex_groups(d);
        let h = hex(s.last() as nat);
        lemma_hex_groups_shape(d);
        lemma_hex_no_colon(s.last() as nat);
        let t = hex_groups(s);
        assert(t == x + seq![':'] + h);
        assert forall|j: int| !#[trigger] double_colon_at(t, j) by {
            if double_colon_at(t, j) {
                if j + 1 < x.len() {
                    assert(t[j] == x[j] && t[j + 1] == x[j + 1]);
                    assert(double_colon_at(x, j));
                } else if j + 1 == x.len() {
                    assert(t[j] == x.last());
                } else if j == x.len() {
                    assert(t[j + 1] == h[0]);
                } else {
                    assert(t[j] == h[j - x.len() - 1]);
                }
            }
        }
        assert(t[0] == x[0]);
        assert(t.last() == h.last());
    }
}

/// A run of zero segments stays within the segments, and every segment in
/// it is zero.
proof fn lemma_zero_run_zeros(s: Seq<u16>, i: int)
    requires
        0 <= i <= s.len(),
    ensures
        i + zero_run(s, i) <= s.len(),
        forall|m: int| i <= m < i + zero_run(s, i) ==> s[m] == 0,
    decreases s.len() - i,
{
    if i < s.len() && s[i] == 0 {
        lemma_zero_run_zeros(s, i + 1);
    }
}

/// Among the first `n` indices, one that begins a longest run of zero
/// segments, with no earlier index beginning a run as long.
proof fn longest_zero_run_before(s: Seq<u16>, n: int) -> (b: int)
    requires
        1 <= n <= s.len(),
    ensures
        0 <= b < n,
        forall|j: int| 0 <= j < n ==> zero_run(s, j) <= zero_run(s, b),
        forall|j: int| 0 <= j < b ==> zero_run(s, j) < zero_run(s, b),
    decreases n,
{
    if n == 1 {
        0
    } else {
        let b = longest_zero_run_before(s, n - 1);
        if zero_run(s, n - 1) > zero_run(s, b) {
            n - 1
        } else {
            b
        }
    }
}

/// Nonempty segments have a first longest run of zero segments.
proof fn lemma_first_longest_zero_run_exists(s: Seq<u16>)
    requires
        s.len() >= 1,
    ensures
        is_first_longest_zero_run(s, first_longest_zero_run(s)),
{
    let b = longest_zero_run_before(s, s.len() as int);
    assert(is_first_longest_zero_run(s, b));
}

/// Where a text's first `"::"` is known, it is the one that reading finds.
proof fn lemma_first_double_colon_unique(s: Seq<char>, i: int)
    requires
        is_first_double_colon(s, i),
    ensures
        (choose|k: int| is_first_double_colon(s, k)) == i,
{
    let k = choose|k: int| is_first_double_colon(s, k);
    assert(is_first_double_colon(s, k));
    if k < i {
        assert(double_colon_at(s, k));
    } else if i < k {
        assert(double_colon_at(s, i));
    }
}

/// Dot-decimal notation holds no colon and is longer than a hexadecimal
/// group.
proof fn lemma_dotted_decimal_no_colon(a: Ipv4Addr)
    ensures
        dotted_decimal(a).len() >= 7,
        forall|k: int| 0 <= k < dotted_decimal(a).len() ==> #[trigger] dotted_decimal(a)[k] != ':',
{
    let d0 = decimal(a.0 as nat);
    let d1 = decimal(a.1 as nat);
    let d2 = decimal(a.2 as nat);
    let d3 = decimal(a.3 as nat);
    lemma_decimal_digits(a.0 as nat);
    lemma_decimal_digits(a.1 as nat);
    lemma_decimal_digits(a.2 as nat);
    lemma_decimal_digits(a.3 as nat);
    let t = dotted_decimal(a);
    let e0 = d0.len() as int;
    let e1 = e0 + 1 + d1.len();
    let e2 = e1 + 1 + d2.len();
    assert forall|k: int| 0 <= k < t.len() implies #[trigger] t[k] != ':' by {
        if k < e0 {
            assert(t[k] == d0[k] && is_digit(d0[k]));
        } else if k == e0 || k == e1 || k == e2 {
            assert(t[k] == '.');
        } else if k < e1 {
            assert(t[k] == d1[k - e0 - 1] && is_digit(d1[k - e0 - 1]));
        } else if k < e2 {
            assert(t[k] == d2[k - e1 - 1] && is_digit(d2[k - e1 - 1]));
        } else {
            assert(t[k] == d3[k - e2 - 1] && is_digit(d3[k - e2 - 1]));
        }
    }
}

/// The text of an IPv4-mapped address reads back as that address.
proof fn lemma_mapped_text_round_trip(a: Ipv6Addr)
    requires
        is_ipv4_mapped(a),
    ensures
        ipv6_of_text(spec_ipv6_text(a)) == Some(a),
{
    let v4 = low_ipv4(a);
    let d = dotted_decimal(v4);
    let f = seq!['f', 'f', 'f', 'f'];
    let text = spec_ipv6_text(a);
    assert(text =~= seq![':', ':'] + f + seq![':'] + d);
    assert(is_first_double_colon(text, 0));
    lemma_first_double_colon_unique(text, 0);
    assert(text.take(0) =~= Seq::<char>::empty());
    let rest = text.skip(2);
    assert(rest =~= f + seq![':'] + d);
    lemma_dotted_decimal_no_colon(v4);
    lemma_colon_pieces_append(f, d);
    lemma_colon_pieces(f, 4);
    let ps = colon_pieces(rest);
    assert(ps =~= seq![f, d]);
    assert(hex(0xffff) =~= f) by {
        assert(hex(15) =~= seq!['f']);
        assert(hex(255) =~= seq!['f', 'f']);
        assert(hex(4095) =~= seq!['f', 'f', 'f']);
    }
    lemma_hex_group_of_hex(0xffff);
    assert(hex_group(d) is None);
    assert(ps.skip(1) =~= seq![d]);
    let b = choose|b: Ipv4Addr| d == dotted_decimal(b);
    assert(d == dotted_decimal(v4));
    lemma_dotted_decimal_injective(b, v4);
    assert(piece_groups(d, true) == Some(ipv4_groups(v4)));
    assert(pieces_groups(ps.skip(1), true) == Some(ipv4_groups(v4)));
    assert(hex_group(ps[0]) == Some(0xffffu16));
    let t = seq![0xffffu16] + ipv4_groups(v4);
    assert(pieces_groups(ps, true) == Some(t));
    assert(rest.len() != 0);
    assert(text_groups(rest, true) == Some(t));
    assert(text_groups(Seq::<char>::empty(), false) == Some(Seq::<u16>::empty()));
    let g = Seq::<u16>::empty() + zero_groups(5) + t;
    assert(ipv4_groups(v4)[0] == a.6 && ipv4_groups(v4)[1] == a.7);
    assert(groups_addr(g) == a);
}

/// Colon-separated hexadecimal segments stand for those segments.
proof fn lemma_text_groups_of_hex_groups(s: Seq<u16>, v4: bool)
    ensures
        text_groups(hex_groups(s), v4) == Some(s),
{
    lemma_hex_groups_shape(s);
    if s.len() == 0 {
        assert(s =~= Seq::<u16>::empty());
    } else {
        lemma_colon_pieces_of_hex_groups(s);
        lemma_pieces_groups_of_hex(s, v4);
    }
}

/// The text of an address written with `"::"` for its first longest run of
/// zero segments reads back as that address.
proof fn lemma_compressed_text_round_trip(a: Ipv6Addr)
    requires
        !is_ipv4_mapped(a),
        zero_run(a.view_segments(), first_longest_zero_run(a.view_segments())) > 1,
    ensures
        ipv6_of_text(spec_ipv6_text(a)) == Some(a),
{
    let s = a.view_segments();
    lemma_first_longest_zero_run_exists(s);
    let start = first_longest_zero_run(s);
    let len = zero_run(s, start);
    lemma_zero_run_zeros(s, start);
    let head = s.take(start);
    let tail = s.skip(start + len);
    let h = hex_groups(head);
    let t = hex_groups(tail);
    let text = spec_ipv6_text(a);
    assert(text == h + seq![':', ':'] + t);
    let i = h.len() as int;
    lemma_hex_groups_shape(head);
    assert(is_first_double_colon(text, i)) by {
        assert forall|j: int| 0 <= j < i implies !#[trigger] double_colon_at(text, j) by {
            if j + 1 < i {
                assert(text[j] == h[j] && text[j + 1] == h[j + 1]);
                assert(!double_colon_at(h, j));
            } else {
                assert(text[j] == h.last());
            }
        }
    }
    lemma_first_double_colon_unique(text, i);
    assert(text.take(i) =~= h);
    assert(text.skip(i + 2) =~= t);
    lemma_text_groups_of_hex_groups(head, false);
    lemma_text_groups_of_hex_groups(tail, true);
    assert(head.len() + tail.len() == 8 - len);
    let g = head + zero_groups((8 - head.len() - tail.len()) as nat) + tail;
    assert(g =~= s);
    assert(groups_addr(g) == a);
}

/// The text of an address written without `"::"` reads back as that address.
proof fn lemma_plain_text_round_trip(a: Ipv6Addr)
    requires
        !is_ipv4_mapped(a),
        zero_run(a.view_segments(), first_longest_zero_run(a.view_segments())) <= 1,
    ensures
        ipv6_of_text(spec_ipv6_text(a)) == Some(a),
{
    let s = a.view_segments();
    let text = spec_ipv6_text(a);
    assert(text == hex_groups(s));
    lemma_hex_groups_shape(s);
    assert(!exists|i: int| is_first_double_colon(text, i));
    lemma_text_groups_of_hex_groups(s, true);
    assert(groups_addr(s) == a);
}

/// Reading the text that the library writes for an IPv6 address gives that
/// address back.
pub proof fn lemma_ipv6_text_round_trip(a: Ipv6Addr)
    ensures
        ipv6_of_text(spec_ipv6_text(a)) == Some(a),
{
    if is_ipv4_mapped(a) {
        lemma_mapped_text_round_trip(a);
    } else if zero_run(a.view_segments(), first_longest_zero_run(a.view_segments())) > 1 {
        lemma_compressed_text_round_trip(a);
    } else {
        lemma_plain_text_round_trip(a);
    }
}

} // verus!
