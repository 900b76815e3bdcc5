use vstd::prelude::*;

use crate::transaction::fits_amount;

verus! {

/// An ASCII decimal digit.
pub open spec fn is_digit(b: u8) -> bool {
    48 <= b <= 57
}

/// The value of an ASCII decimal digit.
pub open spec fn digit_value(b: u8) -> int {
    b - 48
}

/// The ASCII digit for `d`, with `0 <= d < 10`.
pub open spec fn digit_char(d: int) -> u8 {
    (48 + d) as u8
}

/// The number that a run of decimal digits writes.
pub open spec fn digits_value(s: Seq<u8>) -> int
    decreases s.len(),
{
    if s.len() == 0 {
        0
    } else {
        digits_value(s.drop_last()) * 10 + digit_value(s.last())
    }
}

/// The end of the run of digits of `s` that starts at `from`.
pub open spec fn digits_end(s: Seq<u8>, from: int) -> int
    decreases s.len() - from,
{
    if from < 0 || from >= s.len() || !is_digit(s[from]) {
        from
    } else {
        digits_end(s, from + 1)
    }
}

/// The length of the sign of `s`, `-` or `+`: one or zero.
pub open spec fn sign_len(s: Seq<u8>) -> int {
    if s.len() > 0 && (s[0] == 45 || s[0] == 43) {
        1
    } else {
        0
    }
}

/// The end of the integer digits of `s`.
pub open spec fn int_end(s: Seq<u8>) -> int {
    digits_end(s, sign_len(s))
}

/// `s` is an optional sign, digits, and optionally a point and more digits,
/// with at least one digit in all.
pub open spec fn is_decimal(s: Seq<u8>) -> bool {
    let e = int_end(s);
    if e == s.len() {
        e > sign_len(s)
    } else {
        &&& s[e] == 46
        &&& digits_end(s, e + 1) == s.len()
        &&& s.len() - sign_len(s) >= 2
    }
}

/// The digit at position `p` of `s` as a number, zero past the end.
pub open spec fn digit_at(s: Seq<u8>, p: int) -> int {
    if p < s.len() {
        digit_value(s[p])
    } else {
        0
    }
}

/// The magnitude of decimal text `s` in hundredths, rounded half away from zero.
pub open spec fn magnitude_cents(s: Seq<u8>) -> int {
    let e = int_end(s);
    let round_up = e + 3 < s.len() && s[e + 3] >= 53;
    digits_value(s.subrange(sign_len(s), e)) * 100 + digit_at(s, e + 1) * 10 + digit_at(s, e + 2) + if round_up {
        1int
    } else {
        0int
    }
}

/// The number of cents that decimal text `s` writes, rounded to the nearest
/// cent (half away from zero); `None` where `s` is no decimal number or the
/// value does not fit an `Amount`.
pub open spec fn parse_cents(s: Seq<u8>) -> Option<int> {
    let m = magnitude_cents(s);
    let v = if s.len() > 0 && s[0] == 45 {
        -m
    } else {
        m
    };
    if is_decimal(s) && fits_amount(v) {
        Some(v)
    } else {
        None
    }
}

/// The decimal digits of `n`, without leading zeros.
pub open spec fn decimal(n: nat) -> Seq<u8>
    decreases n,
{
    if n < 10 {
        seq![digit_char(n as int)]
    } else {
        decimal(n / 10).push(digit_char((n % 10) as int))
    }
}

/// `c` cents as text with four decimals: an optional `-`, the whole units,
/// a point, the two digits of the cents and two zeros.
pub open spec fn render_cents(c: int) -> Seq<u8> {
    let m = (if c < 0 {
        -c
    } else {
        c
    }) as nat;
    let sign = if c < 0 {
        seq![45u8]
    } else {
        Seq::<u8>::empty()
    };
    sign + decimal(m / 100) + seq![46u8, digit_char(((m % 100) / 10) as int), digit_char((m % 10) as int), 48u8, 48u8]
}

/// Appends the decimal digits of `n` to `out`.
fn push_decimal(n: u64, out: &mut Vec<u8>)
    ensures
        final(out)@ == old(out)@ + decimal(n as nat),
    decreases n,
{
    if n >= 10 {
        push_decimal(n / 10, out);
    }
    out.push(48u8 + (n % 10) as u8);
    assert(final(out)@ =~= old(out)@ + decimal(n as nat));
}

/// `cents` as text with four decimals.
pub fn render(cents: i64) -> (r: Vec<u8>)
    ensures
        r@ == render_cents(cents as int),
{
    let m: u64 = if cents < 0 {
        (0i128 - cents as i128) as u64
    } else {
        cents as u64
    };
    let mut out: Vec<u8> = Vec::new();
    if cents < 0 {
        out.push(45u8);
    }
    push_decimal(m / 100, &mut out);
    out.push(46u8);
    out.push(48u8 + ((m % 100) / 10) as u8);
    out.push(48u8 + (m % 10) as u8);
    out.push(48u8);
    out.push(48u8);
    assert(out@ =~= render_cents(cents as int));
    out
}

/// Every byte from `from` up to the end of its run of digits is a digit.
proof fn lemma_digits_run(s: Seq<u8>, from: int, p: int)
    requires
        0 <= from <= p < digits_end(s, from),
    ensures
        is_digit(s[p]),
    decreases p - from,
{
    if from < p {
        lemma_digits_run(s, from + 1, p);
    }
}

/// The digits after the point of decimal text are digits.
proof fn lemma_fraction_digits(s: Seq<u8>)
    requires
        is_decimal(s),
    ensures
        0 <= digit_at(s, int_end(s) + 1) <= 9,
        0 <= digit_at(s, int_end(s) + 2) <= 9,
{
    let e = int_end(s);
    if e < s.len() {
        if e + 1 < s.len() {
            lemma_digits_run(s, e + 1, e + 1);
        }
        if e + 2 < s.len() {
            lemma_digits_run(s, e + 1, e + 2);
        }
    }
}

/// The largest whole number of units whose cents can fit an `Amount`.
const MAX_UNITS: u64 = 92233720368547758;

/// Reads decimal text as cents: an optional sign, digits, and optionally a
/// point and more digits, rounded to the nearest cent, half away from zero.
pub fn parse(s: &[u8]) -> (r: Option<i64>)
    ensures
        r is Some <==> parse_cents(s@) is Some,
        r matches Some(v) ==> parse_cents(s@) == Some(v as int),
{
    let n = s.len();
    let neg = n > 0 && s[0] == 45;
    let start: usize = if n > 0 && (s[0] == 45 || s[0] == 43) {
        1
    } else {
        0
    };
    let mut i: usize = start;
    let mut units: u64 = 0;
    let mut big = false;
    while i < n && 48 <= s[i] && s[i] <= 57
        invariant
            n == s@.len(),
            start == sign_len(s@),
            start <= i <= n,
            digits_end(s@, start as int) == digits_end(s@, i as int),
            big <==> digits_value(s@.subrange(start as int, i as int)) > MAX_UNITS,
            !big ==> units == digits_value(s@.subrange(start as int, i as int)),
        decreases n - i,
    {
        let d = (s[i] - 48) as u64;
        assert(s@.subrange(start as int, i + 1).drop_last() =~= s@.subrange(start as int, i as int));
        if !big {
            let next = units * 10 + d;
            if next > MAX_UNITS {
                big = true;
            } else {
                units = next;
            }
        }
        i = i + 1;
    }
    let e = i;
    assert(int_end(s@) == e);
    let whole = Ghost(digits_value(s@.subrange(start as int, e as int)));
    if big {
        proof {
            if is_decimal(s@) {
                lemma_fraction_digits(s@);
            }
        }
        return None;
    }
    if e == n {
        if e == start {
            return None;
        }
    } else {
        if s[e] != 46 {
            return None;
        }
        let mut j: usize = e + 1;
        while j < n && 48 <= s[j] && s[j] <= 57
            invariant
                n == s@.len(),
                e + 1 <= j <= n,
                digits_end(s@, e + 1) == digits_end(s@, j as int),
            decreases n - j,
        {
            j = j + 1;
        }
        if j != n || n - start < 2 {
            return None;
        }
    }
    assert(is_decimal(s@));
    proof {
        lemma_fraction_digits(s@);
    }
    let f1: u64 = if n - e > 1 {
        (s[e + 1] - 48) as u64
    } else {
        0
    };
    let f2: u64 = if n - e > 2 {
        (s[e + 2] - 48) as u64
    } else {
        0
    };
    let up: u64 = if n - e > 3 && s[e + 3] >= 53 {
        1
    } else {
        0
    };
    let m: u64 = units * 100 + f1 * 10 + f2 + up;
    assert(m == magnitude_cents(s@));
    if neg {
        if m > 9223372036854775808 {
            None
        } else {
            Some((0i128 - m as i128) as i64)
        }
    } else {
        if m > 9223372036854775807 {
            None
        } else {
            Some(m as i64)
        }
    }
}

/// The digits of `n` are digits, at least one, and write `n`.
proof fn lemma_decimal(n: nat)
    ensures
        decimal(n).len() >= 1,
        forall|i: int| 0 <= i < decimal(n).len() ==> #[trigger] is_digit(decimal(n)[i]),
        digits_value(decimal(n)) == n,
    decreases n,
{
    if n >= 10 {
        lemma_decimal(n / 10);
        assert(decimal(n).drop_last() =~= decimal(n / 10));
        assert(n == (n / 10) * 10 + n % 10);
        assert(decimal(n).last() == digit_char((n % 10) as int));
        assert(digit_value(digit_char((n % 10) as int)) == n % 10);
        assert(digits_value(decimal(n)) == digits_value(decimal(n / 10)) * 10 + n % 10);
    } else {
        assert(decimal(n).drop_last() =~= Seq::<u8>::empty());
        assert(digit_value(digit_char(n as int)) == n);
        assert(digits_value(decimal(n)) == digits_value(Seq::<u8>::empty()) * 10 + n);
    }
}

/// A run of digits from `from` that stops at `e` ends at `e`.
proof fn lemma_digits_end_at(s: Seq<u8>, from: int, e: int)
    requires
        0 <= from <= e <= s.len(),
        forall|p: int| from <= p < e ==> #[trigger] is_digit(s[p]),
        e == s.len() || !is_digit(s[e]),
    ensures
        digits_end(s, from) == e,
    decreases e - from,
{
    if from < e {
        lemma_digits_end_at(s, from + 1, e);
    }
}

/// Rendering an amount and reading the text back gives the same number of cents.
pub proof fn lemma_render_parse(c: int)
    requires
        fits_amount(c),
    ensures
        parse_cents(render_cents(c)) == Some(c),
{
    let m = (if c < 0 {
        -c
    } else {
        c
    }) as nat;
    let s = render_cents(c);
    let sign: int = if c < 0 {
        1
    } else {
        0
    };
    let d = decimal(m / 100);
    lemma_decimal(m / 100);
    let e = sign + d.len();
    assert(s.len() == e + 5);
    assert(sign_len(s) == sign) by {
        if c >= 0 {
            assert(s[0] == d[0]);
            assert(is_digit(d[0]));
        } else {
            assert(s[0] == 45);
        }
    }
    assert forall|p: int| sign <= p < e implies #[trigger] is_digit(s[p]) by {
        assert(s[p] == d[p - sign]);
    }
    assert(s[e] == 46);
    lemma_digits_end_at(s, sign, e);
    assert(int_end(s) == e);
    assert(s.subrange(sign, e) =~= d);
    lemma_digits_end_at(s, e + 1, s.len() as int);
    assert(is_decimal(s));
    assert(digit_at(s, e + 1) == (m % 100) / 10);
    assert(digit_at(s, e + 2) == m % 10);
    assert(magnitude_cents(s) == (m / 100) * 100 + ((m % 100) / 10) * 10 + m % 10);
    assert(m == 100 * (m / 100) + m % 100) by {
        vstd::arithmetic::div_mod::lemma_fundamental_div_mod(m as int, 100);
    }
    assert(m % 100 == 10 * ((m % 100) / 10) + (m % 100) % 10) by {
        vstd::arithmetic::div_mod::lemma_fundamental_div_mod((m % 100) as int, 10);
    }
    assert((m % 100) % 10 == m % 10) by {
        vstd::arithmetic::div_mod::lemma_mod_mod(m as int, 10, 10);
    }
    assert(magnitude_cents(s) == m);
}

/// Rendered text is ASCII.
pub proof fn lemma_render_ascii(c: int)
    ensures
        forall|i: int| 0 <= i < render_cents(c).len() ==> #[trigger] render_cents(c)[i] < 128,
{
    let m = (if c < 0 {
        -c
    } else {
        c
    }) as nat;
    lemma_decimal(m / 100);
    let sign = if c < 0 {
        1int
    } else {
        0int
    };
    assert forall|i: int| 0 <= i < render_cents(c).len() implies #[trigger] render_cents(c)[i] < 128 by {
        let e = sign + decimal(m / 100).len();
        if i < sign {
            assert(render_cents(c)[i] == 45);
        } else if i < e {
            assert(render_cents(c)[i] == decimal(m / 100)[i - sign]);
            assert(is_digit(decimal(m / 100)[i - sign]));
        } else if i == e + 1 {
            assert(render_cents(c)[i] == digit_char(((m % 100) / 10) as int));
        } else if i == e + 2 {
            assert(render_cents(c)[i] == digit_char((m % 10) as int));
        }
    }
}

} // verus!
