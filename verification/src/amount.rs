//! Conversion between human-readable decimal amounts and integer base units.
//!
//! A mint stores balances as integers scaled by `10^decimals`. An operator
//! types an amount such as `"1.5"`; at precision 6 that denotes `1_500_000`
//! base units. The conversion here is exact decimal arithmetic: a string is
//! accepted only when it denotes a whole number of base units, and rendering
//! an amount back is a true inverse of parsing.

use vstd::prelude::*;
use vstd::arithmetic::div_mod::lemma_fundamental_div_mod;
use vstd::arithmetic::mul::lemma_mul_inequality;
use crate::error::TokenError;

verus! {

/// Whether a character is a decimal digit.
pub open spec fn is_digit(c: char) -> bool {
    c == '0' || c == '1' || c == '2' || c == '3' || c == '4' || c == '5' || c == '6' || c == '7'
        || c == '8' || c == '9'
}

/// The numeric value of a decimal digit; zero on anything else.
pub open spec fn digit_val(c: char) -> nat {
    if c == '1' {
        1
    } else if c == '2' {
        2
    } else if c == '3' {
        3
    } else if c == '4' {
        4
    } else if c == '5' {
        5
    } else if c == '6' {
        6
    } else if c == '7' {
        7
    } else if c == '8' {
        8
    } else if c == '9' {
        9
    } else {
        0
    }
}

pub open spec fn all_digits(s: Seq<char>) -> bool {
    forall|i: int| 0 <= i < s.len() ==> is_digit(#[trigger] s[i])
}

/// The value of a digit string, most significant digit first.
pub open spec fn digits_val(s: Seq<char>) -> nat
    decreases s.len(),
{
    if s.len() == 0 {
        0
    } else {
        digits_val(s.drop_last()) * 10 + digit_val(s.last())
    }
}

pub open spec fn pow10(n: nat) -> nat
    decreases n,
{
    if n == 0 {
        1
    } else {
        10 * pow10((n - 1) as nat)
    }
}

/// The index of the first dot in `s`, or `s.len()` when there is none.
pub open spec fn dot_index(s: Seq<char>) -> int
    decreases s.len(),
{
    if s.len() == 0 {
        0
    } else if s[0] == '.' {
        0
    } else {
        1 + dot_index(s.drop_first())
    }
}

/// The amount that fits in the base-unit range, or the overflow error.
pub open spec fn checked_amount(v: nat) -> Result<u64, TokenError> {
    if v > u64::MAX {
        Err(TokenError::AmountOverflow)
    } else {
        Ok(v as u64)
    }
}

/// What an amount string denotes in base units at the given precision.
///
/// The accepted forms are `digits` and `digits.digits`, with at most
/// `decimals` fractional digits — anything else is not a whole number of
/// base units. A well-formed amount beyond the 64-bit range overflows.
pub open spec fn parsed_amount(s: Seq<char>, decimals: u8) -> Result<u64, TokenError> {
    let dot = dot_index(s);
    if dot == s.len() {
        if s.len() == 0 || !all_digits(s) {
            Err(TokenError::InvalidAmount)
        } else {
            checked_amount(digits_val(s) * pow10(decimals as nat))
        }
    } else {
        let int_part = s.subrange(0, dot);
        let frac = s.subrange(dot + 1, s.len() as int);
        if int_part.len() == 0 || frac.len() == 0 || !all_digits(int_part) || !all_digits(frac)
            || frac.len() > decimals {
            Err(TokenError::InvalidAmount)
        } else {
            checked_amount(
                digits_val(int_part) * pow10(decimals as nat) + digits_val(frac) * pow10(
                    (decimals - frac.len()) as nat,
                ),
            )
        }
    }
}

/// The character of a single digit.
pub open spec fn digit_char(d: nat) -> char {
    if d == 0 {
        '0'
    } else if d == 1 {
        '1'
    } else if d == 2 {
        '2'
    } else if d == 3 {
        '3'
    } else if d == 4 {
        '4'
    } else if d == 5 {
        '5'
    } else if d == 6 {
        '6'
    } else if d == 7 {
        '7'
    } else if d == 8 {
        '8'
    } else {
        '9'
    }
}

/// The digits of `n`, most significant first, without leading zeroes.
pub open spec fn digits_of(n: nat) -> Seq<char>
    decreases n,
{
    if n < 10 {
        seq![digit_char(n)]
    } else {
        digits_of(n / 10) + seq![digit_char(n % 10)]
    }
}

/// The last `width` digits of `n`, zero-padded on the left.
pub open spec fn padded_digits(n: nat, width: nat) -> Seq<char>
    decreases width,
{
    if width == 0 {
        Seq::empty()
    } else {
        padded_digits(n / 10, (width - 1) as nat) + seq![digit_char(n % 10)]
    }
}

/// The decimal rendering of `v` base units at the given precision: the whole
/// part, then — at a nonzero precision — a dot and exactly `decimals`
/// fractional digits.
pub open spec fn formatted_amount(v: u64, decimals: u8) -> Seq<char> {
    if decimals == 0 {
        digits_of(v as nat)
    } else {
        digits_of(v as nat / pow10(decimals as nat)) + seq!['.'] + padded_digits(
            v as nat % pow10(decimals as nat),
            decimals as nat,
        )
    }
}

proof fn lemma_pow10_pos(n: nat)
    ensures
        pow10(n) >= 1,
    decreases n,
{
    if n > 0 {
        lemma_pow10_pos((n - 1) as nat);
    }
}

proof fn lemma_pow10_increases(a: nat, b: nat)
    requires
        a <= b,
    ensures
        pow10(a) <= pow10(b),
    decreases b,
{
    if a < b {
        lemma_pow10_increases(a, (b - 1) as nat);
        lemma_pow10_pos((b - 1) as nat);
    }
}

proof fn lemma_digit_char_val(d: nat)
    requires
        d < 10,
    ensures
        is_digit(digit_char(d)),
        digit_char(d) != '.',
        digit_val(digit_char(d)) == d,
{
}

proof fn lemma_digits_of_digits(n: nat)
    ensures
        all_digits(digits_of(n)),
        digits_of(n).len() >= 1,
        digits_val(digits_of(n)) == n,
    decreases n,
{
    if n < 10 {
        lemma_digit_char_val(n);
        let s = seq![digit_char(n)];
        assert(digits_of(n) == s);
        assert(s.drop_last() =~= Seq::<char>::empty());
        assert(s.last() == digit_char(n));
        assert(digits_val(Seq::<char>::empty()) == 0);
        assert(digits_val(s) == digits_val(s.drop_last()) * 10 + digit_val(s.last()));
    } else {
        assert(n / 10 < n) by (nonlinear_arith)
            requires
                n >= 10,
        ;
        lemma_digits_of_digits(n / 10);
        lemma_digit_char_val(n % 10);
        let a = digits_of(n / 10);
        let s = a + seq![digit_char(n % 10)];
        assert(digits_of(n) == s);
        assert(s.drop_last() =~= a);
        assert(s.last() == digit_char(n % 10));
        assert(forall|i: int| 0 <= i < s.len() ==> is_digit(#[trigger] s[i])) by {
            assert(forall|i: int| 0 <= i < a.len() ==> s[i] == a[i]);
        }
        assert(digits_val(s) == digits_val(s.drop_last()) * 10 + digit_val(s.last()));
        lemma_fundamental_div_mod(n as int, 10);
    }
}

proof fn lemma_padded_digits(n: nat, width: nat)
    ensures
        all_digits(padded_digits(n, width)),
        padded_digits(n, width).len() == width,
        n < pow10(width) ==> digits_val(padded_digits(n, width)) == n,
    decreases width,
{
    if width > 0 {
        lemma_padded_digits(n / 10, (width - 1) as nat);
        lemma_digit_char_val(n % 10);
        let a = padded_digits(n / 10, (width - 1) as nat);
        let s = a + seq![digit_char(n % 10)];
        assert(s.drop_last() =~= a);
        assert(forall|i: int| 0 <= i < s.len() ==> is_digit(#[trigger] s[i])) by {
            assert(forall|i: int| 0 <= i < a.len() ==> s[i] == a[i]);
        }
        if n < pow10(width) {
            assert(pow10(width) == 10 * pow10((width - 1) as nat));
            assert(n / 10 < pow10((width - 1) as nat)) by (nonlinear_arith)
                requires
                    n < 10 * pow10((width - 1) as nat),
            ;
            lemma_fundamental_div_mod(n as int, 10);
        }
    }
}

/// The first index that satisfies the first-dot characterization is the
/// dot index.
proof fn lemma_dot_index_at(s: Seq<char>, k: int)
    requires
        0 <= k <= s.len(),
        forall|j: int| 0 <= j < k ==> s[j] != '.',
        k < s.len() ==> s[k] == '.',
    ensures
        dot_index(s) == k,
    decreases s.len(),
{
    if s.len() == 0 {
    } else if s[0] == '.' {
        assert(k == 0);
    } else {
        let t = s.drop_first();
        assert(forall|j: int| 0 <= j < k - 1 ==> t[j] == s[j + 1] && s[j + 1] != '.');
        lemma_dot_index_at(t, k - 1);
    }
}

/// A digit string is worth at least any of its prefixes scaled up by the
/// remaining width.
proof fn lemma_digits_val_take_bound(s: Seq<char>, k: int)
    requires
        0 <= k <= s.len(),
    ensures
        digits_val(s) >= digits_val(s.take(k)) * pow10((s.len() - k) as nat),
    decreases s.len() - k,
{
    if k == s.len() {
        assert(s.take(k) =~= s);
        assert(pow10((s.len() - k) as nat) == 1);
        assert(digits_val(s.take(k)) * pow10((s.len() - k) as nat) == digits_val(s))
            by (nonlinear_arith)
            requires
                pow10((s.len() - k) as nat) == 1,
                digits_val(s.take(k)) == digits_val(s),
        ;
    } else {
        let t = s.drop_last();
        lemma_digits_val_take_bound(t, k);
        assert(t.take(k) =~= s.take(k));
        let v = digits_val(s.take(k));
        let w = (s.len() - 1 - k) as nat;
        let g = pow10((s.len() - k) as nat);
        assert(g == 10 * pow10(w));
        assert(digits_val(t) >= v * pow10(w));
        assert(digits_val(s) == digits_val(t) * 10 + digit_val(s.last()));
        lemma_mul_inequality((v * pow10(w)) as int, digits_val(t) as int, 10);
        assert((v * pow10(w)) * 10 <= digits_val(t) * 10);
        assert(v * g == (v * pow10(w)) * 10) by (nonlinear_arith)
            requires
                g == 10 * pow10(w),
        ;
        assert(digits_val(s) >= v * g);
    }
}

proof fn lemma_prod_exceeds(a: nat, p: nat, m: nat)
    requires
        a > m,
        p >= 1,
    ensures
        a * p > m,
{
    assert(a * p > m) by (nonlinear_arith)
        requires
            a > m,
            p >= 1,
    ;
}

proof fn lemma_sum_exceeds(a: nat, b: nat, p: nat, q: nat, m: nat)
    requires
        a > m,
        p >= 1,
    ensures
        a * p + b * q > m,
{
    assert(a * p + b * q > m) by (nonlinear_arith)
        requires
            a > m,
            p >= 1,
    ;
}

fn digit_of(c: char) -> (r: Option<u8>)
    ensures
        match r {
            Some(d) => is_digit(c) && d < 10 && d as nat == digit_val(c),
            None => !is_digit(c),
        },
{
    match c {
        '0' => Some(0),
        '1' => Some(1),
        '2' => Some(2),
        '3' => Some(3),
        '4' => Some(4),
        '5' => Some(5),
        '6' => Some(6),
        '7' => Some(7),
        '8' => Some(8),
        '9' => Some(9),
        _ => None,
    }
}

fn scan_digits(s: &str, start: usize, end: usize) -> (ok: bool)
    requires
        start <= end <= s@.len(),
    ensures
        ok == all_digits(s@.subrange(start as int, end as int)),
{
    let ghost sub = s@.subrange(start as int, end as int);
    let mut i: usize = start;
    while i < end
        invariant
            start <= i <= end <= s@.len(),
            sub == s@.subrange(start as int, end as int),
            forall|j: int| start <= j < i ==> is_digit(#[trigger] s@[j]),
        decreases end - i,
    {
        let c = s.get_char(i);
        if digit_of(c).is_none() {
            assert(sub[i - start as int] == s@[i as int]);
            return false;
        }
        i += 1;
    }
    assert forall|j: int| 0 <= j < sub.len() implies is_digit(#[trigger] sub[j]) by {
        assert(sub[j] == s@[j + start]);
    }
    true
}

fn digits_value(s: &str, start: usize, end: usize) -> (r: Result<u64, TokenError>)
    requires
        start <= end <= s@.len(),
        all_digits(s@.subrange(start as int, end as int)),
    ensures
        ({
            let v = digits_val(s@.subrange(start as int, end as int));
            match r {
                Ok(u) => u as nat == v,
                Err(e) => e == TokenError::AmountOverflow && v > u64::MAX,
            }
        }),
{
    let ghost sub = s@.subrange(start as int, end as int);
    let mut acc: u64 = 0;
    let mut i: usize = start;
    while i < end
        invariant
            start <= i <= end <= s@.len(),
            sub == s@.subrange(start as int, end as int),
            all_digits(sub),
            acc as nat == digits_val(sub.take(i - start as int)),
        decreases end - i,
    {
        let c = s.get_char(i);
        assert(sub[i - start as int] == s@[i as int]);
        let d = match digit_of(c) {
            Some(d) => d,
            None => {
                proof {
                    assert(false);
                }
                0
            },
        };
        proof {
            let head = sub.take(i - start as int);
            let next = sub.take(i + 1 - start as int);
            assert(next.drop_last() =~= head);
            assert(next.last() == sub[i - start as int]);
        }
        let overflowed = match acc.checked_mul(10) {
            Some(t) => match t.checked_add(d as u64) {
                Some(nv) => {
                    acc = nv;
                    false
                },
                None => true,
            },
            None => true,
        };
        if overflowed {
            proof {
                let m = i + 1 - start as int;
                lemma_digits_val_take_bound(sub, m);
                lemma_pow10_pos((sub.len() - m) as nat);
                lemma_mul_inequality(
                    1,
                    pow10((sub.len() - m) as nat) as int,
                    digits_val(sub.take(m)) as int,
                );
            }
            return Err(TokenError::AmountOverflow);
        }
        i += 1;
    }
    proof {
        assert(sub.take(end - start as int) =~= sub);
    }
    Ok(acc)
}

fn pow10_u64(n: u8) -> (r: Option<u64>)
    ensures
        match r {
            Some(p) => p as nat == pow10(n as nat),
            None => pow10(n as nat) > u64::MAX,
        },
{
    let mut acc: u64 = 1;
    let mut i: u8 = 0;
    while i < n
        invariant
            i <= n,
            acc as nat == pow10(i as nat),
        decreases n - i,
    {
        match acc.checked_mul(10) {
            Some(t) => {
                acc = t;
                i += 1;
            },
            None => {
                proof {
                    lemma_pow10_increases((i + 1) as nat, n as nat);
                }
                return None;
            },
        }
    }
    Some(acc)
}

/// `value * 10^exp` when it fits the base-unit range.
fn scaled(value: u64, exp: u8) -> (r: Result<u64, TokenError>)
    ensures
        ({
            let v = value as nat * pow10(exp as nat);
            match r {
                Ok(u) => u as nat == v,
                Err(e) => e == TokenError::AmountOverflow && v > u64::MAX,
            }
        }),
{
    if value == 0 {
        return Ok(0);
    }
    match pow10_u64(exp) {
        None => {
            proof {
                lemma_mul_inequality(1, value as int, pow10(exp as nat) as int);
            }
            Err(TokenError::AmountOverflow)
        },
        Some(p) => match value.checked_mul(p) {
            Some(t) => Ok(t),
            None => Err(TokenError::AmountOverflow),
        },
    }
}

/// Parses a human-readable amount into base units at the given precision,
/// accepting exactly the strings that denote a whole number of base units in
/// the 64-bit range.
pub fn ui_amount_to_base(s: &str, decimals: u8) -> (r: Result<u64, TokenError>)
    ensures
        r == parsed_amount(s@, decimals),
{
    let n = s.unicode_len();
    let mut i: usize = 0;
    let mut dot: usize = n;
    while i < n
        invariant
            n == s@.len(),
            i <= n,
            dot <= n,
            dot == n ==> forall|j: int| 0 <= j < i ==> s@[j] != '.',
            dot < n ==> dot < i && s@[dot as int] == '.' && (forall|j: int|
                0 <= j < dot ==> s@[j] != '.'),
        decreases n - i,
    {
        if dot == n {
            if s.get_char(i) == '.' {
                dot = i;
            }
        }
        i += 1;
    }
    proof {
        lemma_dot_index_at(s@, dot as int);
    }
    if dot == n {
        if n == 0 || !scan_digits(s, 0, n) {
            return Err(TokenError::InvalidAmount);
        }
        proof {
            assert(s@.subrange(0, n as int) =~= s@);
        }
        let iv = match digits_value(s, 0, n) {
            Ok(v) => v,
            Err(e) => {
                proof {
                    lemma_pow10_pos(decimals as nat);
                    assert(digits_val(s@.subrange(0, n as int)) == digits_val(s@));
                    lemma_prod_exceeds(digits_val(s@), pow10(decimals as nat), u64::MAX as nat);
                }
                return Err(e);
            },
        };
        return scaled(iv, decimals);
    }
    let frac_start = dot + 1;
    let frac_len = n - dot - 1;
    let ghost int_part = s@.subrange(0, dot as int);
    let ghost frac = s@.subrange(dot as int + 1, n as int);
    if dot == 0 || frac_len == 0 || frac_len > decimals as usize {
        return Err(TokenError::InvalidAmount);
    }
    if !scan_digits(s, 0, dot) {
        return Err(TokenError::InvalidAmount);
    }
    if !scan_digits(s, frac_start, n) {
        return Err(TokenError::InvalidAmount);
    }
    let scale_exp: u8 = decimals - frac_len as u8;
    proof {
        lemma_pow10_pos(decimals as nat);
        lemma_pow10_pos(scale_exp as nat);
    }
    let iv = match digits_value(s, 0, dot) {
        Ok(v) => v,
        Err(e) => {
            proof {
                lemma_sum_exceeds(
                    digits_val(int_part),
                    digits_val(frac),
                    pow10(decimals as nat),
                    pow10((decimals - frac.len()) as nat),
                    u64::MAX as nat,
                );
            }
            return Err(e);
        },
    };
    let fv = match digits_value(s, frac_start, n) {
        Ok(v) => v,
        Err(e) => {
            proof {
                assert(scale_exp as nat == (decimals - frac.len()) as nat);
                lemma_sum_exceeds(
                    digits_val(frac),
                    digits_val(int_part),
                    pow10((decimals - frac.len()) as nat),
                    pow10(decimals as nat),
                    u64::MAX as nat,
                );
            }
            return Err(e);
        },
    };
    let t1 = match scaled(iv, decimals) {
        Ok(v) => v,
        Err(e) => {
            return Err(e);
        },
    };
    let t2 = match scaled(fv, scale_exp) {
        Ok(v) => v,
        Err(e) => {
            return Err(e);
        },
    };
    match t1.checked_add(t2) {
        Some(total) => Ok(total),
        None => Err(TokenError::AmountOverflow),
    }
}

fn append_digit(out: &mut String, d: u8)
    requires
        d < 10,
    ensures
        final(out)@ == old(out)@ + seq![digit_char(d as nat)],
{
    proof {
        reveal_strlit("0");
        reveal_strlit("1");
        reveal_strlit("2");
        reveal_strlit("3");
        reveal_strlit("4");
        reveal_strlit("5");
        reveal_strlit("6");
        reveal_strlit("7");
        reveal_strlit("8");
        reveal_strlit("9");
    }
    match d {
        0 => out.append("0"),
        1 => out.append("1"),
        2 => out.append("2"),
        3 => out.append("3"),
        4 => out.append("4"),
        5 => out.append("5"),
        6 => out.append("6"),
        7 => out.append("7"),
        8 => out.append("8"),
        _ => out.append("9"),
    }
}

fn push_digits(out: &mut String, v: u64)
    ensures
        final(out)@ == old(out)@ + digits_of(v as nat),
    decreases v,
{
    if v >= 10 {
        proof {
            assert(v / 10 < v) by (nonlinear_arith)
                requires
                    v >= 10,
            ;
        }
        push_digits(out, v / 10);
        append_digit(out, (v % 10) as u8);
        assert(out@ =~= old(out)@ + digits_of(v as nat));
    } else {
        append_digit(out, v as u8);
    }
}

fn push_padded_digits(out: &mut String, v: u64, width: u8)
    ensures
        final(out)@ == old(out)@ + padded_digits(v as nat, width as nat),
    decreases width,
{
    if width == 0 {
        assert(out@ =~= old(out)@ + padded_digits(v as nat, 0));
        return;
    }
    push_padded_digits(out, v / 10, width - 1);
    append_digit(out, (v % 10) as u8);
    assert(out@ =~= old(out)@ + padded_digits(v as nat, width as nat));
}

/// Renders a base-unit amount at the given precision; the exact inverse of
/// [`ui_amount_to_base`], as [`lemma_amount_round_trip`] states.
pub fn base_to_ui_amount(v: u64, decimals: u8) -> (r: String)
    ensures
        r@ == formatted_amount(v, decimals),
{
    let mut out = String::new();
    if decimals == 0 {
        push_digits(&mut out, v);
        return out;
    }
    proof {
        reveal_strlit(".");
    }
    match pow10_u64(decimals) {
        Some(p) => {
            proof {
                lemma_pow10_pos(decimals as nat);
            }
            let q = v / p;
            let rem = v % p;
            push_digits(&mut out, q);
            out.append(".");
            push_padded_digits(&mut out, rem, decimals);
            assert(out@ =~= formatted_amount(v, decimals));
        },
        None => {
            proof {
                assert(v as nat / pow10(decimals as nat) == 0 && v as nat % pow10(decimals as nat)
                    == v as nat) by (nonlinear_arith)
                    requires
                        (v as nat) < pow10(decimals as nat),
                ;
            }
            push_digits(&mut out, 0);
            out.append(".");
            push_padded_digits(&mut out, v, decimals);
            assert(out@ =~= formatted_amount(v, decimals));
        },
    }
    out
}

/// Amount conversion round trip: rendering any base-unit amount at any
/// precision and parsing it back at the same precision recovers the amount
/// exactly.
pub proof fn lemma_amount_round_trip(v: u64, decimals: u8)
    ensures
        parsed_amount(formatted_amount(v, decimals), decimals) == Ok::<u64, TokenError>(v),
{
    if decimals == 0 {
        let s = digits_of(v as nat);
        lemma_digits_of_digits(v as nat);
        lemma_dot_index_at(s, s.len() as int);
        assert(pow10(0) == 1);
        assert(digits_val(s) * pow10(0) == v as nat) by (nonlinear_arith)
            requires
                pow10(0) == 1,
                digits_val(s) == v as nat,
        ;
    } else {
        let p = pow10(decimals as nat);
        lemma_pow10_pos(decimals as nat);
        let q = v as nat / p;
        let rem = v as nat % p;
        assert(0 <= rem < p && v as nat == q * p + rem) by (nonlinear_arith)
            requires
                p >= 1,
                q == v as nat / p,
                rem == v as nat % p,
        ;
        let a = digits_of(q);
        let f = padded_digits(rem, decimals as nat);
        lemma_digits_of_digits(q);
        lemma_padded_digits(rem, decimals as nat);
        let s = a + seq!['.'] + f;
        assert(formatted_amount(v, decimals) == s);
        assert(forall|j: int| 0 <= j < a.len() ==> s[j] == a[j]);
        assert(s[a.len() as int] == '.');
        lemma_dot_index_at(s, a.len() as int);
        assert(s.subrange(0, a.len() as int) =~= a);
        assert(s.subrange(a.len() as int + 1, s.len() as int) =~= f);
        assert(pow10(0) == 1);
        assert(digits_val(a) == q);
        assert(digits_val(f) == rem);
        assert(digits_val(a) * p + digits_val(f) * pow10(0) == v as nat) by (nonlinear_arith)
            requires
                pow10(0) == 1,
                digits_val(a) == q,
                digits_val(f) == rem,
                v as nat == q * p + rem,
        ;
    }
}

} // verus!
