//! Decimal text of integers and fixed-point values.
use vstd::prelude::*;
use crate::fixed::SCALE;

verus! {

pub open spec fn digit_char(d: nat) -> char {
    if d == 0 { '0' } else if d == 1 { '1' } else if d == 2 { '2' } else if d == 3 { '3' }
    else if d == 4 { '4' } else if d == 5 { '5' } else if d == 6 { '6' } else if d == 7 { '7' }
    else if d == 8 { '8' } else { '9' }
}

/// Decimal digits of `n`, most significant first, without leading zeros.
pub open spec fn decimal_digits(n: nat) -> Seq<char>
    decreases n,
{
    if n < 10 {
        seq![digit_char(n)]
    } else {
        decimal_digits(n / 10).push(digit_char(n % 10))
    }
}

pub open spec fn zeros(k: nat) -> Seq<char> {
    Seq::new(k, |i: int| '0')
}

pub open spec fn pow10(k: nat) -> nat
    decreases k,
{
    if k == 0 { 1 } else { 10 * pow10((k - 1) as nat) }
}

/// `n` in exactly `width` digits, with leading zeros.
pub open spec fn padded_digits(n: nat, width: nat) -> Seq<char> {
    zeros((width - decimal_digits(n).len()) as nat) + decimal_digits(n)
}

/// Relies on `u128`'s `Display` (`to_string`): plain decimal digits, no sign,
/// no leading zeros.
#[verifier::external_body]
fn u128_text(n: u128) -> (r: String)
    ensures
        r@ == decimal_digits(n as nat),
{
    n.to_string()
}

/// Whether a string holds exactly the given text.
pub fn text_eq(a: &String, b: &str) -> (r: bool)
    ensures
        r == (a@ == b@),
{
    let b2 = String::from_str(b);
    *a == b2
}

/// Decimal text of a non-negative integer.
pub fn decimal_text(n: u128) -> (r: String)
    ensures
        r@ == decimal_digits(n as nat),
{
    u128_text(n)
}

proof fn lemma_digits_len(n: nat, k: nat)
    requires
        n < pow10(k),
        k >= 1,
    ensures
        decimal_digits(n).len() <= k,
    decreases k,
{
    if n >= 10 {
        assert(n / 10 < pow10((k - 1) as nat)) by (nonlinear_arith)
            requires n < pow10(k), pow10(k) == 10 * pow10((k - 1) as nat);
        if k == 1 {
            reveal_with_fuel(pow10, 2);
            assert(pow10(1) == 10);
        } else {
            lemma_digits_len(n / 10, (k - 1) as nat);
        }
    }
}

/// `n` written in exactly `width` digits; `n` must fit.
pub fn padded_text(n: u128, width: usize) -> (r: String)
    requires
        1 <= width <= 20,
        n < pow10(width as nat),
    ensures
        r@ == padded_digits(n as nat, width as nat),
{
    let digits = decimal_text(n);
    proof {
        lemma_digits_len(n as nat, width as nat);
    }
    let len = digits.as_str().unicode_len();
    let mut out = String::new();
    let mut i: usize = len;
    while i < width
        invariant
            len <= i <= width,
            len == decimal_digits(n as nat).len(),
            out@ == zeros((i - len) as nat),
        decreases width - i,
    {
        out.append("0");
        proof {
            reveal_strlit("0");
        }
        i = i + 1;
        assert(out@ =~= zeros((i - len) as nat));
    }
    out.append(digits.as_str());
    out
}

/// Fraction digits that carry information at the fixed-point precision.
pub open spec fn shown_digits(decimals: nat) -> nat {
    if decimals < 4 { decimals } else { 4 }
}

/// A non-negative fixed-point value in units of `10^-shown_digits(decimals)`,
/// rounded half up below the fixed-point precision.
pub open spec fn fixed_units(a: nat, decimals: nat) -> nat {
    if decimals < 4 {
        let step = pow10((4 - decimals) as nat);
        ((a + step / 2) / step) as nat
    } else {
        a
    }
}

fn units_of(a: u128, decimals: usize) -> (r: u128)
    requires
        a <= 0x8000_0000_0000_0000,
    ensures
        r == fixed_units(a as nat, decimals as nat),
        r <= 0x8000_0000_0000_0000 + 10000,
{
    proof {
        reveal_with_fuel(pow10, 5);
        assert(pow10(4) == 10000);
    }
    if decimals < 4 {
        proof {
            lemma_pow10_monotone((4 - decimals) as nat, 4);
        }
        let step = pow10_exec(4 - decimals);
        let r = (a + step / 2) / step;
        assert(r <= a + step / 2) by (nonlinear_arith)
            requires r as int == (a as int + step as int / 2) / (step as int), step >= 1;
        r
    } else {
        a
    }
}

/// Text of a fixed-point value with `decimals` fraction digits: rounded half
/// away from zero below the fixed-point precision, padded with zeros above it.
pub open spec fn fixed_text(v: int, decimals: nat) -> Seq<char> {
    let sign: Seq<char> = if v < 0 { seq!['-'] } else { Seq::empty() };
    let a: nat = if v < 0 { (-v) as nat } else { v as nat };
    let d = shown_digits(decimals);
    let units = fixed_units(a, decimals);
    let whole = units / pow10(d);
    let frac = units % pow10(d);
    if decimals == 0 {
        sign + decimal_digits(whole)
    } else {
        sign + decimal_digits(whole) + seq!['.'] + padded_digits(frac, d) + zeros((decimals - d) as nat)
    }
}

pub fn pow10_exec(k: usize) -> (r: u128)
    requires
        k <= 20,
    ensures
        r == pow10(k as nat),
        r >= 1,
{
    let mut r: u128 = 1;
    let mut i: usize = 0;
    proof {
        reveal_with_fuel(pow10, 21);
        assert(pow10(20) == 100_000_000_000_000_000_000);
    }
    while i < k
        invariant
            i <= k <= 20,
            r == pow10(i as nat),
            r >= 1,
            pow10(20) == 100_000_000_000_000_000_000,
        decreases k - i,
    {
        proof {
            lemma_pow10_monotone((i + 1) as nat, 20);
        }
        r = r * 10;
        i = i + 1;
    }
    r
}

pub proof fn lemma_pow10_monotone(a: nat, b: nat)
    requires
        a <= b,
    ensures
        1 <= pow10(a) <= pow10(b),
    decreases b,
{
    if b > 0 && a < b {
        lemma_pow10_monotone(a, (b - 1) as nat);
    } else if a == b && b > 0 {
        lemma_pow10_monotone(0, (b - 1) as nat);
    }
    if b == 20 {
        reveal_with_fuel(pow10, 21);
        assert(pow10(20) == 100_000_000_000_000_000_000);
    }
}

/// Writes a fixed-point value with `decimals` fraction digits.
pub fn fixed_to_text(v: i64, decimals: usize) -> (r: String)
    ensures
        r@ == fixed_text(v as int, decimals as nat),
{
    let a: u128 = if v < 0 { (-(v as i128)) as u128 } else { v as u128 };
    let units = units_of(a, decimals);
    let d: usize = if decimals < 4 { decimals } else { 4 };
    proof {
        lemma_pow10_monotone(d as nat, 4);
    }
    let p = pow10_exec(d);
    let whole = units / p;
    let frac = units % p;
    let mut out = String::new();
    if v < 0 {
        out.append("-");
        proof {
            reveal_strlit("-");
        }
    }
    let w = decimal_text(whole);
    out.append(w.as_str());
    if decimals > 0 {
        out.append(".");
        proof {
            reveal_strlit(".");
        }
        let f = padded_text(frac, d);
        out.append(f.as_str());
        let ghost head = out@;
        let mut k: usize = d;
        while k < decimals
            invariant
                d <= k <= decimals,
                out@ == head + zeros((k - d) as nat),
            decreases decimals - k,
        {
            out.append("0");
            proof {
                reveal_strlit("0");
            }
            k = k + 1;
            assert(out@ =~= head + zeros((k - d) as nat));
        }
    }
    proof {
        let sign: Seq<char> = if v < 0 { seq!['-'] } else { Seq::empty() };
        if decimals == 0 {
            assert(out@ =~= sign + decimal_digits(whole as nat));
        } else {
            assert(out@ =~= sign + decimal_digits(whole as nat) + seq!['.'] + padded_digits(frac as nat, d as nat) + zeros((decimals - d) as nat));
        }
    }
    out
}

} // verus!
