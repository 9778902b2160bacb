use vstd::prelude::*;

verus! {

/// Number of `'.'` characters in `s`.
pub open spec fn count_dots(s: Seq<char>) -> nat
    decreases s.len(),
{
    if s.len() == 0 {
        0
    } else {
        (if s[0] == '.' { 1nat } else { 0nat }) + count_dots(s.skip(1))
    }
}

/// `suffix` is what remains of `name` after dropping zero or more whole
/// leading labels (each label is ended by a `'.'`).
pub open spec fn is_label_suffix(suffix: Seq<char>, name: Seq<char>) -> bool {
    &&& suffix.len() <= name.len()
    &&& name.skip(name.len() - suffix.len()) == suffix
    &&& (suffix.len() == name.len() || name[name.len() - suffix.len() - 1] == '.')
}

/// `sld` is the last two labels of `name`: a label suffix holding exactly one dot.
pub open spec fn is_last_two_labels(sld: Seq<char>, name: Seq<char>) -> bool {
    is_label_suffix(sld, name) && count_dots(sld) == 1
}

/// Dots after position `k` are among the dots after any earlier position
/// `j`, and a dot in between adds one.
pub proof fn lemma_count_dots_skip(s: Seq<char>, j: int, k: int)
    requires
        0 <= j <= k <= s.len(),
    ensures
        count_dots(s.skip(j)) >= count_dots(s.skip(k)),
        (exists|m: int| j <= m < k && s[m] == '.') ==> count_dots(s.skip(j)) > count_dots(
            s.skip(k),
        ),
    decreases k - j,
{
    if j < k {
        assert(s.skip(j).skip(1) =~= s.skip(j + 1));
        assert(s.skip(j)[0] == s[j]);
        lemma_count_dots_skip(s, j + 1, k);
        if exists|m: int| j <= m < k && s[m] == '.' {
            let m = choose|m: int| j <= m < k && s[m] == '.';
            if m > j {
                assert(j + 1 <= m < k && s[m] == '.');
            }
        }
    }
}

/// A name has at most one "last two labels".
pub proof fn lemma_last_two_labels_unique(a: Seq<char>, b: Seq<char>, name: Seq<char>)
    requires
        is_last_two_labels(a, name),
        is_last_two_labels(b, name),
    ensures
        a == b,
{
    let na = name.len() - a.len();
    let nb = name.len() - b.len();
    if na > nb {
        assert(name[na - 1] == '.');
        lemma_count_dots_skip(name, nb, na);
        assert(nb <= na - 1 < na && name[na - 1] == '.');
    } else if nb > na {
        assert(name[nb - 1] == '.');
        lemma_count_dots_skip(name, na, nb);
        assert(na <= nb - 1 < nb && name[nb - 1] == '.');
    }
}

/// The last two labels of `name` (see `is_last_two_labels`).
pub open spec fn last_two_labels(name: Seq<char>) -> Seq<char> {
    choose|t: Seq<char>| is_last_two_labels(t, name)
}

/// Every name with a dot has its last two labels.
pub proof fn lemma_last_two_labels_exist(name: Seq<char>)
    requires
        count_dots(name) >= 1,
    ensures
        exists|t: Seq<char>| is_last_two_labels(t, name),
    decreases name.len(),
{
    if count_dots(name) == 1 {
        assert(name.skip(0) =~= name);
        assert(is_last_two_labels(name, name));
    } else {
        let rest = name.skip(1);
        lemma_last_two_labels_exist(rest);
        let t = choose|t: Seq<char>| is_last_two_labels(t, rest);
        assert(rest.skip(rest.len() - t.len()) =~= name.skip(name.len() - t.len()));
        if t.len() < rest.len() {
            assert(rest[rest.len() - t.len() - 1] == name[name.len() - t.len() - 1]);
        } else {
            assert(t =~= rest) by {
                assert(rest.skip(0) =~= rest);
            }
            assert(name[0] == '.');
        }
        assert(is_last_two_labels(t, name));
    }
}

/// Taking the last two labels twice gives what taking them once gives.
pub proof fn lemma_last_two_labels_idempotent(name: Seq<char>)
    requires
        count_dots(name) >= 1,
    ensures
        count_dots(last_two_labels(name)) == 1,
        last_two_labels(last_two_labels(name)) == last_two_labels(name),
{
    lemma_last_two_labels_exist(name);
    let t = last_two_labels(name);
    assert(t.skip(0) =~= t);
    assert(is_last_two_labels(t, t));
    lemma_last_two_labels_unique(last_two_labels(t), t, t);
}

/// The decimal digit characters, indexed by their value.
pub open spec fn digit_chars() -> Seq<char> {
    seq!['0', '1', '2', '3', '4', '5', '6', '7', '8', '9']
}

/// The decimal numeral of `n`, without leading zeros (`"0"` for zero).
pub open spec fn decimal(n: nat) -> Seq<char>
    decreases n,
{
    if n < 10 {
        seq![digit_chars()[n as int]]
    } else {
        decimal(n / 10).push(digit_chars()[(n % 10) as int])
    }
}

/// A decimal digit character.
pub open spec fn is_digit(c: char) -> bool {
    '0' <= c && c <= '9'
}

/// The value of a decimal digit character.
pub open spec fn digit_value(c: char) -> int {
    c as int - '0' as int
}

/// Every character of `s` is a decimal digit.
pub open spec fn all_digits(s: Seq<char>) -> bool {
    forall|i: int| 0 <= i < s.len() ==> is_digit(#[trigger] s[i])
}

/// The number that the decimal digits `s` denote.
pub open spec fn digits_value(s: Seq<char>) -> nat
    decreases s.len(),
{
    if s.len() == 0 {
        0
    } else {
        10 * digits_value(s.drop_last()) + (digit_value(s.last()) as nat)
    }
}

proof fn lemma_digit_chars(d: int)
    requires
        0 <= d < 10,
    ensures
        is_digit(digit_chars()[d]),
        digit_value(digit_chars()[d]) == d,
{
    if d == 0 {
        assert(digit_chars()[d] == '0');
    } else if d == 1 {
        assert(digit_chars()[d] == '1');
    } else if d == 2 {
        assert(digit_chars()[d] == '2');
    } else if d == 3 {
        assert(digit_chars()[d] == '3');
    } else if d == 4 {
        assert(digit_chars()[d] == '4');
    } else if d == 5 {
        assert(digit_chars()[d] == '5');
    } else if d == 6 {
        assert(digit_chars()[d] == '6');
    } else if d == 7 {
        assert(digit_chars()[d] == '7');
    } else if d == 8 {
        assert(digit_chars()[d] == '8');
    } else {
        assert(digit_chars()[d] == '9');
    }
}

proof fn lemma_digit_char_of(c: char)
    requires
        is_digit(c),
    ensures
        digit_chars()[digit_value(c)] == c,
        0 <= digit_value(c) < 10,
{
    lemma_digit_chars(digit_value(c));
}

/// The decimal numeral of `n` is made of digits, denotes `n`, has no leading
/// zero, and is short for small numbers.
pub proof fn lemma_decimal_digits(n: nat)
    ensures
        all_digits(decimal(n)),
        decimal(n).len() >= 1,
        digits_value(decimal(n)) == n,
        n < 10 <==> decimal(n).len() == 1,
        n >= 10 ==> decimal(n)[0] != '0',
        n < 100 ==> decimal(n).len() <= 2,
        n < 1000 ==> decimal(n).len() <= 3,
    decreases n,
{
    if n < 10 {
        lemma_digit_chars(n as int);
        assert(decimal(n).drop_last() =~= Seq::<char>::empty());
        assert(digits_value(decimal(n)) == 10 * digits_value(Seq::<char>::empty()) + digit_value(
            decimal(n).last(),
        ));
    } else {
        let q = n / 10;
        let r = n % 10;
        lemma_decimal_digits(q);
        lemma_digit_chars(r as int);
        let s = decimal(n);
        assert(s.drop_last() =~= decimal(q));
        assert(s.last() == digit_chars()[r as int]);
        if q < 10 {
            lemma_digit_chars(q as int);
        }
        assert(s[0] == decimal(q)[0]);
        assert(n == 10 * q + r) by (nonlinear_arith)
            requires
                q == n / 10,
                r == n % 10,
        ;
    }
}

/// Digits without a leading zero (but for a lone `0`) are the decimal numeral
/// of the number they denote.
pub proof fn lemma_read_decimal(s: Seq<char>)
    requires
        s.len() >= 1,
        all_digits(s),
        s.len() == 1 || s[0] != '0',
    ensures
        decimal(digits_value(s)) == s,
        s[0] != '0' ==> digits_value(s) >= 1,
        s.len() > 1 ==> digits_value(s) >= 10,
    decreases s.len(),
{
    let p = s.drop_last();
    assert(is_digit(s.last()));
    lemma_digit_char_of(s.last());
    if s.len() == 1 {
        assert(p.len() == 0);
        let d = digit_value(s.last());
        assert(digits_value(s) == 10 * digits_value(p) + d);
        assert(digits_value(s) == d);
        assert(decimal(d as nat) == seq![digit_chars()[d]]);
        assert(decimal(digits_value(s)) =~= s);
        if s[0] != '0' {
            assert(digit_value(s[0]) != 0);
        }
    } else {
        assert(p[0] == s[0]);
        lemma_read_decimal(p);
        let v = digits_value(s);
        let x = digits_value(p);
        let d = digit_value(s.last());
        assert(v == 10 * x + d);
        assert(v / 10 == x && v % 10 == d) by (nonlinear_arith)
            requires
                v == 10 * x + d,
                0 <= d < 10,
        ;
        assert(decimal(v) =~= decimal(x).push(digit_chars()[d]));
        assert(s =~= p.push(s.last()));
    }
}

/// The digit character of the value `d`, as a one-character text.
fn digit_text(d: u128) -> (t: &'static str)
    requires
        d < 10,
    ensures
        t@ == seq![digit_chars()[d as int]],
{
    proof {
        reveal_strlit("0");
        reveal_strlit("1");
        reveal_strlit("2");
        reveal_strlit("3");
        reveal_strlit("4");
        reveal_strlit("5");
        reveal_strlit("6");
        reveal_strlit("7");
        reveal_strlit("8");
        reveal_strlit("9");
    }
    match d {
        0 => "0",
        1 => "1",
        2 => "2",
        3 => "3",
        4 => "4",
        5 => "5",
        6 => "6",
        7 => "7",
        8 => "8",
        _ => "9",
    }
}

/// Writes `n` as its decimal numeral.
pub(crate) fn decimal_text(n: u128) -> (text: String)
    ensures
        text@ == decimal(n as nat),
    decreases n,
{
    if n < 10 {
        String::from_str(digit_text(n))
    } else {
        let mut text = decimal_text(n / 10);
        text.append(digit_text(n % 10));
        text
    }
}

/// The lowercase hexadecimal digit characters, indexed by their value.
pub open spec fn hex_digit_chars() -> Seq<char> {
    seq!['0', '1', '2', '3', '4', '5', '6', '7', '8', '9', 'a', 'b', 'c', 'd', 'e', 'f']
}

/// The lowercase hexadecimal numeral of `n`, without leading zeros.
pub open spec fn hex(n: nat) -> Seq<char>
    decreases n,
{
    if n < 16 {
        seq![hex_digit_chars()[n as int]]
    } else {
        hex(n / 16).push(hex_digit_chars()[(n % 16) as int])
    }
}

/// The hexadecimal digit character of the value `d`, as a one-character text.
fn hex_digit_text(d: u16) -> (t: &'static str)
    requires
        d < 16,
    ensures
        t@ == seq![hex_digit_chars()[d as int]],
{
    proof {
        reveal_strlit("0");
        reveal_strlit("1");
        reveal_strlit("2");
        reveal_strlit("3");
        reveal_strlit("4");
        reveal_strlit("5");
        reveal_strlit("6");
        reveal_strlit("7");
        reveal_strlit("8");
        reveal_strlit("9");
        reveal_strlit("a");
        reveal_strlit("b");
        reveal_strlit("c");
        reveal_strlit("d");
        reveal_strlit("e");
        reveal_strlit("f");
    }
    match d {
        0 => "0",
        1 => "1",
        2 => "2",
        3 => "3",
        4 => "4",
        5 => "5",
        6 => "6",
        7 => "7",
        8 => "8",
        9 => "9",
        10 => "a",
        11 => "b",
        12 => "c",
        13 => "d",
        14 => "e",
        _ => "f",
    }
}

/// Writes `n` as its lowercase hexadecimal numeral, without leading zeros.
pub(crate) fn hex_text(n: u16) -> (text: String)
    ensures
        text@ == hex(n as nat),
    decreases n,
{
    if n < 16 {
        String::from_str(hex_digit_text(n))
    } else {
        let mut text = hex_text(n / 16);
        text.append(hex_digit_text(n % 16));
        text
    }
}

/// What `Debug` writes for a string slice: the quoted, escaped form.
pub uninterp spec fn debug_quoted(s: Seq<char>) -> Seq<char>;

/// Formats `s` with `{:?}` (the `Debug` impl of `str`); the contract claims
/// only that the text is a function of the characters of `s`.
#[verifier::external_body]
pub(crate) fn quote_debug(s: &str) -> (text: String)
    ensures
        text@ == debug_quoted(s@),
{
    format!("{:?}", s)
}

/// Character-wise equality of two string slices.
pub fn str_equals(a: &str, b: &str) -> (r: bool)
    ensures
        r == (a@ == b@),
{
    let n = a.unicode_len();
    let m = b.unicode_len();
    if n != m {
        return false;
    }
    let mut i: usize = 0;
    while i < n
        invariant
            n == a@.len(),
            m == b@.len(),
            n == m,
            i <= n,
            forall|j: int| 0 <= j < i ==> a@[j] == b@[j],
        decreases n - i,
    {
        if a.get_char(i) != b.get_char(i) {
            return false;
        }
        i = i + 1;
    }
    proof {
        assert(a@ =~= b@);
    }
    true
}

} // verus!
