//! Words of a line, and the decimal texts that answers are made of.
use vstd::prelude::*;
use vstd::string::*;
use vstd::arithmetic::div_mod::{lemma_fundamental_div_mod, lemma_fundamental_div_mod_converse};

verus! {

/// The Unicode `White_Space` characters, which separate the words of a line.
pub open spec fn is_space(c: char) -> bool {
    let u = c as u32;
    ||| 0x09 <= u <= 0x0d
    ||| u == 0x20
    ||| u == 0x85
    ||| u == 0xa0
    ||| u == 0x1680
    ||| 0x2000 <= u <= 0x200a
    ||| u == 0x2028
    ||| u == 0x2029
    ||| u == 0x202f
    ||| u == 0x205f
    ||| u == 0x3000
}

/// Whether `c` separates words.
pub fn is_space_char(c: char) -> (r: bool)
    ensures
        r == is_space(c),
{
    let u = c as u32;
    (0x09 <= u && u <= 0x0d) || u == 0x20 || u == 0x85 || u == 0xa0 || u == 0x1680 || (0x2000
        <= u && u <= 0x200a) || u == 0x2028 || u == 0x2029 || u == 0x202f || u == 0x205f || u
        == 0x3000
}

/// The words of `s`: its maximal runs of characters that are not spaces, in order.
pub open spec fn words(s: Seq<char>) -> Seq<Seq<char>>
    decreases s.len(),
{
    if s.len() == 0 {
        seq![]
    } else {
        let c = s.last();
        let rest = words(s.drop_last());
        if is_space(c) {
            rest
        } else if s.len() >= 2 && !is_space(s[s.len() - 2]) {
            rest.update(rest.len() - 1, rest.last().push(c))
        } else {
            rest.push(seq![c])
        }
    }
}

/// Splits a line into its words.
pub fn split_words(line: &str) -> (r: Vec<String>)
    ensures
        r.deep_view() == words(line@),
{
    let n = line.unicode_len();
    let ghost s = line@;
    let mut out: Vec<String> = Vec::new();
    let mut in_word = false;
    let mut start: usize = 0;
    let mut i: usize = 0;
    while i < n
        invariant
            n == s.len(),
            s == line@,
            i <= n,
            in_word <==> (i > 0 && !is_space(s[i - 1])),
            in_word ==> start < i,
            in_word ==> out.deep_view().push(s.subrange(start as int, i as int)) == words(
                s.take(i as int),
            ),
            !in_word ==> out.deep_view() == words(s.take(i as int)),
        decreases n - i,
    {
        let c = line.get_char(i);
        assert(s.take(i + 1).drop_last() =~= s.take(i as int));
        assert(s.take(i + 1).last() == c);
        if is_space_char(c) {
            if in_word {
                let w = String::from_str(line.substring_char(start, i));
                let ghost before = out.deep_view();
                out.push(w);
                assert(out.deep_view() =~= before.push(s.subrange(start as int, i as int)));
            }
            in_word = false;
        } else {
            if in_word {
                assert(s.subrange(start as int, i + 1) =~= s.subrange(start as int, i as int).push(c));
                assert(out.deep_view().push(s.subrange(start as int, i + 1)) =~= out.deep_view().push(
                    s.subrange(start as int, i as int),
                ).update(out.deep_view().len() as int, s.subrange(start as int, i + 1)));
            } else {
                start = i;
                assert(s.subrange(start as int, i + 1) =~= seq![c]);
            }
            in_word = true;
        }
        i = i + 1;
    }
    assert(s.take(n as int) =~= s);
    if in_word {
        let w = String::from_str(line.substring_char(start, n));
        let ghost before = out.deep_view();
        out.push(w);
        assert(out.deep_view() =~= before.push(s.subrange(start as int, n as int)));
    }
    out
}

/// The character of a decimal digit.
pub open spec fn digit_char(d: nat) -> char {
    if d == 0 {
        '0'
    } else if d == 1 {
        '1'
    } else if d == 2 {
        '2'
    } else if d == 3 {
        '3'
    } else if d == 4 {
        '4'
    } else if d == 5 {
        '5'
    } else if d == 6 {
        '6'
    } else if d == 7 {
        '7'
    } else if d == 8 {
        '8'
    } else {
        '9'
    }
}

/// The decimal digits of `n`, without leading zeros.
pub open spec fn decimal(n: nat) -> Seq<char>
    decreases n,
{
    if n < 10 {
        seq![digit_char(n)]
    } else {
        decimal(n / 10).push(digit_char(n % 10))
    }
}

fn digit_str(d: u128) -> (r: &'static str)
    requires
        d < 10,
    ensures
        r@ == seq![digit_char(d as nat)],
{
    proof {
        reveal_strlit("0");
        reveal_strlit("1");
        reveal_strlit("2");
        reveal_strlit("3");
        reveal_strlit("4");
        reveal_strlit("5");
        reveal_strlit("6");
        reveal_strlit("7");
        reveal_strlit("8");
        reveal_strlit("9");
    }
    match d {
        0 => "0",
        1 => "1",
        2 => "2",
        3 => "3",
        4 => "4",
        5 => "5",
        6 => "6",
        7 => "7",
        8 => "8",
        _ => "9",
    }
}

/// Appends the decimal digits of `n`.
pub fn push_decimal(out: &mut String, n: u128)
    ensures
        final(out)@ == old(out)@ + decimal(n as nat),
    decreases n,
{
    if n >= 10 {
        push_decimal(out, n / 10);
    }
    out.append(digit_str(n % 10));
    assert(n >= 10 ==> decimal(n as nat) == decimal((n / 10) as nat).push(digit_char((n % 10) as nat)));
}

/// The words joined by single spaces.
pub open spec fn joined(ws: Seq<Seq<char>>) -> Seq<char>
    decreases ws.len(),
{
    if ws.len() == 0 {
        seq![]
    } else if ws.len() == 1 {
        ws[0]
    } else {
        joined(ws.drop_last()) + seq![' '] + ws.last()
    }
}

/// Appends the words, separated by single spaces.
pub fn push_joined(out: &mut String, ws: &Vec<String>)
    ensures
        final(out)@ == old(out)@ + joined(ws.deep_view()),
{
    let ghost start = out@;
    let ghost v = ws.deep_view();
    let mut i: usize = 0;
    while i < ws.len()
        invariant
            v == ws.deep_view(),
            i <= ws.len(),
            out@ == start + joined(v.take(i as int)),
        decreases ws.len() - i,
    {
        assert(v.take(i + 1).drop_last() =~= v.take(i as int));
        assert(v.take(i + 1).last() == ws[i as int]@);
        if i > 0 {
            proof {
                reveal_strlit(" ");
            }
            out.append(" ");
        }
        out.append(ws[i].as_str());
        if i == 0 {
            assert(v.take(1) =~= seq![ws[0]@]);
        }
        assert(out@ =~= start + joined(v.take(i + 1)));
        i = i + 1;
    }
    assert(v.take(ws.len() as int) =~= v);
}

/// The greatest number of digits after the decimal point, in an amount read
/// or written.
pub const MAX_FRACTION_DIGITS: u32 = 18;

/// The first `k` digits of the fraction `r / d` (`r < d`), stopping early
/// once the division is exact.
pub open spec fn fraction_digits(r: nat, d: nat, k: nat) -> Seq<char>
    decreases k,
{
    if k == 0 || r == 0 || d == 0 {
        seq![]
    } else {
        seq![digit_char((10 * r) / d)] + fraction_digits((10 * r) % d, d, (k - 1) as nat)
    }
}

/// `s` without its trailing zeros.
pub open spec fn trim_zeros(s: Seq<char>) -> Seq<char>
    decreases s.len(),
{
    if s.len() > 0 && s.last() == '0' {
        trim_zeros(s.drop_last())
    } else {
        s
    }
}

/// The decimal text of `n / d`: the integer part, then, when the quotient
/// is not whole, a point and at most `MAX_FRACTION_DIGITS` digits of the
/// fraction, cut off (not rounded) and without trailing zeros.
pub open spec fn quotient_text(n: nat, d: nat) -> Seq<char> {
    let f = trim_zeros(fraction_digits(n % d, d, MAX_FRACTION_DIGITS as nat));
    if f.len() == 0 {
        decimal(n / d)
    } else {
        decimal(n / d) + seq!['.'] + f
    }
}

/// The largest denominator that `push_quotient` accepts.
pub open spec fn max_denominator() -> int {
    u64::MAX as int * 1_000_000_000_000_000_000
}

/// The characters of a sequence of decimal digits.
pub open spec fn digit_chars(ds: Seq<u8>) -> Seq<char> {
    ds.map_values(|d: u8| digit_char(d as nat))
}

/// Appends the decimal text of `n / d`.
pub fn push_quotient(out: &mut String, n: u128, d: u128)
    requires
        0 < d <= max_denominator(),
    ensures
        final(out)@ == old(out)@ + quotient_text(n as nat, d as nat),
{
    proof {
        reveal_strlit(".");
    }
    push_decimal(out, n / d);
    let ghost full = fraction_digits((n % d) as nat, d as nat, MAX_FRACTION_DIGITS as nat);
    let mut digits: Vec<u8> = Vec::new();
    let mut r: u128 = n % d;
    let mut k: u32 = 0;
    while k < MAX_FRACTION_DIGITS && r != 0
        invariant
            0 < d <= max_denominator(),
            r < d,
            k <= MAX_FRACTION_DIGITS,
            digits@.len() == k,
            forall|j: int| 0 <= j < digits@.len() ==> digits@[j] < 10,
            full == digit_chars(digits@) + fraction_digits(
                r as nat,
                d as nat,
                (MAX_FRACTION_DIGITS - k) as nat,
            ),
        decreases MAX_FRACTION_DIGITS - k,
    {
        assert(r * 10 < d * 10);
        let t = r * 10;
        let q = t / d;
        assert(q < 10) by (nonlinear_arith)
            requires
                t < d * 10,
                q == t / d,
                d > 0,
        ;
        let ghost before = digits@;
        digits.push(q as u8);
        assert(digit_chars(digits@) =~= digit_chars(before) + seq![digit_char(q as nat)]);
        r = t % d;
        k = k + 1;
    }
    assert(fraction_digits(r as nat, d as nat, (MAX_FRACTION_DIGITS - k) as nat) =~= seq![]);
    assert(full =~= digit_chars(digits@));
    let mut end: usize = digits.len();
    assert(digits@.take(end as int) =~= digits@);
    while end > 0 && digits[end - 1] == 0
        invariant
            end <= digits@.len(),
            forall|j: int| 0 <= j < digits@.len() ==> digits@[j] < 10,
            trim_zeros(full) == trim_zeros(digit_chars(digits@.take(end as int))),
        decreases end,
    {
        assert(digit_chars(digits@.take(end as int)).drop_last() =~= digit_chars(
            digits@.take(end - 1),
        ));
        end = end - 1;
    }
    let ghost kept = digit_chars(digits@.take(end as int));
    assert(trim_zeros(kept) == kept) by {
        if end > 0 {
            assert(kept.last() == digit_char(digits@[end - 1] as nat));
        }
    }
    if end > 0 {
        out.append(".");
        let mut j: usize = 0;
        let ghost mid = out@;
        while j < end
            invariant
                j <= end <= digits@.len(),
                forall|x: int| 0 <= x < digits@.len() ==> digits@[x] < 10,
                out@ == mid + digit_chars(digits@.take(j as int)),
            decreases end - j,
        {
            out.append(digit_str(digits[j] as u128));
            assert(digit_chars(digits@.take(j + 1)) =~= digit_chars(digits@.take(j as int)).push(
                digit_char(digits@[j as int] as nat),
            ));
            j = j + 1;
        }
    }
}

proof fn lemma_div_scaled(a: nat, d: nat, v: nat)
    requires
        d > 0,
        v > 0,
    ensures
        (v * a) / (v * d) == a / d,
        (v * a) % (v * d) == v * (a % d),
{
    let q = a / d;
    let r = a % d;
    lemma_fundamental_div_mod(a as int, d as int);
    assert(v * a == q * (v * d) + v * r) by (nonlinear_arith)
        requires
            a == d * q + r,
    ;
    assert(0 <= v * r < v * d) by (nonlinear_arith)
        requires
            0 <= r < d,
            v > 0,
    ;
    lemma_fundamental_div_mod_converse((v * a) as int, (v * d) as int, q as int, (v * r) as int);
}

proof fn lemma_fraction_digits_scaled(r: nat, d: nat, v: nat, k: nat)
    requires
        d > 0,
        v > 0,
    ensures
        fraction_digits(v * r, v * d, k) == fraction_digits(r, d, k),
    decreases k,
{
    assert(v * d > 0) by (nonlinear_arith)
        requires
            d > 0,
            v > 0,
    ;
    assert(v * r == 0 <==> r == 0) by (nonlinear_arith)
        requires
            v > 0,
    ;
    if k > 0 && r > 0 {
        assert(10 * (v * r) == v * (10 * r)) by (nonlinear_arith);
        lemma_div_scaled(10 * r, d, v);
        lemma_fraction_digits_scaled((10 * r) % d, d, v, (k - 1) as nat);
    }
}

/// Multiplying the numerator and the denominator by the same positive number
/// changes no character of a quotient's text.
pub proof fn lemma_quotient_text_scaled(n: nat, d: nat, v: nat)
    requires
        d > 0,
        v > 0,
    ensures
        quotient_text(v * n, v * d) == quotient_text(n, d),
{
    lemma_div_scaled(n, d, v);
    lemma_fraction_digits_scaled(n % d, d, v, MAX_FRACTION_DIGITS as nat);
}

} // verus!
