//! Decimal strings, as the exchange sends them, to fixed-point values.
use vstd::prelude::*;
use crate::fixed::SCALE;
use crate::text::pow10;

verus! {

/// Longest integer part accepted, so that any value fits an `i64`.
pub const MAX_INTEGER_DIGITS: usize = 14;

pub open spec fn is_digit(c: char) -> bool {
    '0' <= c <= '9'
}

pub open spec fn digit_value(c: char) -> int {
    c as u32 - 48
}

/// Value of a run of decimal digits.
pub open spec fn digits_value(s: Seq<char>) -> int
    decreases s.len(),
{
    if s.len() == 0 { 0 } else { digits_value(s.drop_last()) * 10 + digit_value(s.last()) }
}

/// Index just past the run of digits that starts at `i`.
pub open spec fn run_end(s: Seq<char>, i: int) -> int
    decreases s.len() - i,
{
    if i < 0 || i >= s.len() || !is_digit(s[i]) { i } else { run_end(s, i + 1) }
}

pub open spec fn all_digits(s: Seq<char>) -> bool {
    forall|i: int| 0 <= i < s.len() ==> is_digit(#[trigger] s[i])
}

pub open spec fn all_zeros(s: Seq<char>) -> bool {
    forall|i: int| 0 <= i < s.len() ==> #[trigger] s[i] == '0'
}

/// Fraction digits in fixed-point units (digits past the fourth must be zeros).
pub open spec fn fraction_units(f: Seq<char>) -> int {
    let t = if f.len() > 4 { f.take(4) } else { f };
    digits_value(t) * pow10((4 - t.len()) as nat)
}

/// `[-]digits[.digits]` with at most `MAX_INTEGER_DIGITS` integer digits, as
/// a fixed-point value. A value finer than the fixed-point precision (a
/// non-zero digit past the fourth fraction digit) is refused.
pub open spec fn decimal_value(s: Seq<char>) -> Option<int> {
    let neg = s.len() > 0 && s[0] == '-';
    let start: int = if neg { 1 } else { 0 };
    let k = run_end(s, start);
    let whole = digits_value(s.subrange(start, k));
    let frac = s.skip(k + 1);
    let magnitude = if k == s.len() { whole * SCALE } else { whole * SCALE + fraction_units(frac) };
    if k == start || k - start > MAX_INTEGER_DIGITS {
        None
    } else if k < s.len() && !(s[k] == '.' && frac.len() > 0 && all_digits(frac) && (frac.len() <= 4 || all_zeros(frac.skip(4)))) {
        None
    } else {
        Some(if neg { -magnitude } else { magnitude })
    }
}

proof fn lemma_digits_value_step(s: Seq<char>, i: int)
    requires
        0 <= i < s.len(),
    ensures
        digits_value(s.take(i + 1)) == digits_value(s.take(i)) * 10 + digit_value(s[i]),
{
    assert(s.take(i + 1).drop_last() =~= s.take(i));
}

proof fn lemma_digits_value_bound(s: Seq<char>)
    requires
        all_digits(s),
    ensures
        0 <= digits_value(s) < pow10(s.len()),
    decreases s.len(),
{
    if s.len() > 0 {
        assert(all_digits(s.drop_last())) by {
            assert forall|i: int| 0 <= i < s.drop_last().len() implies is_digit(#[trigger] s.drop_last()[i]) by {
                assert(s.drop_last()[i] == s[i]);
            }
        }
        lemma_digits_value_bound(s.drop_last());
        assert(is_digit(s[s.len() - 1]));
        assert(digits_value(s) < pow10(s.len())) by (nonlinear_arith)
            requires digits_value(s) == digits_value(s.drop_last()) * 10 + digit_value(s.last()),
                digits_value(s.drop_last()) < pow10(s.drop_last().len()),
                pow10(s.len()) == 10 * pow10(s.drop_last().len()),
                0 <= digit_value(s.last()) <= 9;
    }
}

fn digit_at(s: &str, i: usize) -> (r: bool)
    requires
        i < s@.len(),
    ensures
        r == is_digit(s@[i as int]),
{
    let c = s.get_char(i);
    '0' <= c && c <= '9'
}

/// Whether `s[from..n]` is all zeros.
fn zeros_from(s: &str, n: usize, from: usize) -> (r: bool)
    requires
        n == s@.len(),
        from <= n,
    ensures
        r == all_zeros(s@.subrange(from as int, n as int)),
{
    let mut i: usize = from;
    while i < n
        invariant
            from <= i <= n,
            n == s@.len(),
            all_zeros(s@.subrange(from as int, i as int)),
        decreases n - i,
    {
        if s.get_char(i) != '0' {
            assert(s@.subrange(from as int, n as int)[i - from] != '0');
            return false;
        }
        proof {
            let t = s@.subrange(from as int, i as int + 1);
            assert forall|j: int| 0 <= j < t.len() implies #[trigger] t[j] == '0' by {
                if j < t.len() - 1 {
                    assert(t[j] == s@.subrange(from as int, i as int)[j]);
                }
            }
        }
        i = i + 1;
    }
    true
}

/// End of the run of digits of `s` that starts at `from`.
fn run_end_exec(s: &str, n: usize, from: usize) -> (r: usize)
    requires
        n == s@.len(),
        from <= n,
    ensures
        r == run_end(s@, from as int),
        from <= r <= n,
        all_digits(s@.subrange(from as int, r as int)),
        r < n ==> !is_digit(s@[r as int]),
{
    let mut i: usize = from;
    while i < n && digit_at(s, i)
        invariant
            from <= i <= n,
            n == s@.len(),
            all_digits(s@.subrange(from as int, i as int)),
            run_end(s@, from as int) == run_end(s@, i as int),
        decreases n - i,
    {
        proof {
            let t = s@.subrange(from as int, i as int + 1);
            assert forall|j: int| 0 <= j < t.len() implies is_digit(#[trigger] t[j]) by {
                if j < t.len() - 1 {
                    assert(t[j] == s@.subrange(from as int, i as int)[j]);
                }
            }
        }
        i = i + 1;
    }
    i
}

/// Value of the digits `s[from..to]`.
fn digits_to_int(s: &str, n: usize, from: usize, to: usize) -> (r: u128)
    requires
        n == s@.len(),
        from <= to <= n,
        to - from <= 20,
        all_digits(s@.subrange(from as int, to as int)),
    ensures
        r == digits_value(s@.subrange(from as int, to as int)),
        r < pow10((to - from) as nat),
{
    let mut i: usize = from;
    let mut acc: u128 = 0;
    proof {
        reveal_with_fuel(pow10, 21);
        assert(pow10(20) == 100_000_000_000_000_000_000);
    }
    while i < to
        invariant
            from <= i <= to <= n,
            n == s@.len(),
            to - from <= 20,
            all_digits(s@.subrange(from as int, to as int)),
            acc == digits_value(s@.subrange(from as int, i as int)),
            acc < pow10((i - from) as nat),
            pow10(20) == 100_000_000_000_000_000_000,
        decreases to - i,
    {
        let c = s.get_char(i);
        proof {
            let t = s@.subrange(from as int, i as int + 1);
            assert(t.drop_last() =~= s@.subrange(from as int, i as int));
            assert(s@.subrange(from as int, to as int)[i - from] == c);
            assert(is_digit(c));
            crate::text::lemma_pow10_monotone((i - from + 1) as nat, 20);
            assert(acc * 10 + (c as u32 - 48) < pow10((i - from + 1) as nat)) by (nonlinear_arith)
                requires acc < pow10((i - from) as nat), pow10((i - from + 1) as nat) == 10 * pow10((i - from) as nat),
                    0 <= c as u32 - 48 <= 9;
        }
        acc = acc * 10 + (c as u32 - 48) as u128;
        i = i + 1;
    }
    acc
}

/// The fixed-point value of a decimal string such as `-12.345`, or `None`
/// when it is not one.
#[verifier::rlimit(60)]
pub fn parse_fixed(s: &str) -> (r: Option<i64>)
    ensures
        r is Some <==> decimal_value(s@) is Some,
        r matches Some(v) ==> decimal_value(s@) == Some(v as int),
{
    let n = s.unicode_len();
    let neg = n > 0 && s.get_char(0) == '-';
    let start: usize = if neg { 1 } else { 0 };
    let k = run_end_exec(s, n, start);
    if k == start || k - start > MAX_INTEGER_DIGITS {
        return None;
    }
    let whole = digits_to_int(s, n, start, k);
    proof {
        crate::text::lemma_pow10_monotone((k - start) as nat, 14);
        reveal_with_fuel(pow10, 15);
        assert(pow10(14) == 100_000_000_000_000);
        assert(whole * 10000 <= 100_000_000_000_000 * 10000) by (nonlinear_arith)
            requires whole < 100_000_000_000_000u128;
    }
    let mut magnitude: u128 = whole * (SCALE as u128);
    if k < n {
        if s.get_char(k) != '.' || k + 1 == n {
            return None;
        }
        let e = run_end_exec(s, n, k + 1);
        let ghost frac = s@.skip(k + 1);
        assert(frac =~= s@.subrange(k as int + 1, n as int));
        if e != n {
            proof {
                assert(frac[e - k - 1] == s@[e as int]);
            }
            return None;
        }
        if n - (k + 1) > 4 && !zeros_from(s, n, k + 5) {
            proof {
                assert(frac.skip(4) =~= s@.subrange(k as int + 5, n as int));
            }
            return None;
        }
        proof {
            if n - (k + 1) > 4 {
                assert(frac.skip(4) =~= s@.subrange(k as int + 5, n as int));
            }
        }
        let t_end: usize = if n - (k + 1) > 4 { k + 5 } else { n };
        proof {
            let t = if frac.len() > 4 { frac.take(4) } else { frac };
            assert(t =~= s@.subrange(k as int + 1, t_end as int));
            assert forall|j: int| 0 <= j < t.len() implies is_digit(#[trigger] t[j]) by {
                assert(t[j] == s@.subrange(k as int + 1, n as int)[j]);
            }
        }
        let head = digits_to_int(s, n, k + 1, t_end);
        proof {
            crate::text::lemma_pow10_monotone((t_end - k - 1) as nat, 4);
            crate::text::lemma_pow10_monotone((4 - (t_end - k - 1)) as nat, 4);
            reveal_with_fuel(pow10, 5);
            assert(pow10(4) == 10000);
        }
        let scale = crate::text::pow10_exec(4 - (t_end - k - 1));
        proof {
            let len = (t_end - k - 1) as nat;
            reveal_with_fuel(pow10, 5);
            assert(1 <= len <= 4);
            assert(pow10(0) == 1);
            assert(pow10(1) == 10);
            assert(pow10(2) == 100);
            assert(pow10(3) == 1000);
            if len == 1 {
                assert(pow10(1) * pow10(3) == 10000);
            } else if len == 2 {
                assert(pow10(2) * pow10(2) == 10000);
            } else if len == 3 {
                assert(pow10(3) * pow10(1) == 10000);
            } else {
                assert(pow10(4) * pow10(0) == 10000);
            }
        }
        assert(head * scale <= 10000) by (nonlinear_arith)
            requires head < pow10((t_end - k - 1) as nat), scale == pow10((4 - (t_end - k - 1)) as nat),
                pow10((t_end - k - 1) as nat) * pow10((4 - (t_end - k - 1)) as nat) == 10000;
        magnitude = magnitude + head * scale;
    }
    let m = magnitude as i64;
    Some(if neg { -m } else { m })
}

} // verus!
