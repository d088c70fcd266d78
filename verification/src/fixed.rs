//! Fixed-point credit amounts.
//!
//! The upstream user-info endpoint reports a credit balance as a decimal
//! string such as `"0.0000"` or `"2.5"`.  The crate represents such amounts
//! as unsigned integers counting ten-thousandths of a credit, so `25000`
//! stands for `2.5000` credits.  This module parses the decimal strings into
//! that representation and renders amounts back with four fraction digits.

use crate::text::{find_first, prefix_before};
use vstd::arithmetic::div_mod::lemma_fundamental_div_mod;
use vstd::arithmetic::mul::lemma_mul_inequality;
use vstd::prelude::*;
use vstd::string::*;

verus! {

/// `c` is a decimal digit.
pub open spec fn is_digit_char(c: char) -> bool {
    48 <= c as u32 <= 57
}

/// Numeric value of a digit character.
pub open spec fn digit_val(c: char) -> int {
    c as u32 - 48
}

/// Every character of `s` is a decimal digit.
pub open spec fn all_digits(s: Seq<char>) -> bool {
    forall|i: int| 0 <= i < s.len() ==> is_digit_char(s[i])
}

/// Value of a digit string, most significant digit first.
pub open spec fn digits_val(s: Seq<char>) -> int
    decreases s.len(),
{
    if s.len() == 0 {
        0
    } else {
        digits_val(s.drop_last()) * 10 + digit_val(s.last())
    }
}

/// Ten to the `n`.
pub open spec fn pow10(n: nat) -> int
    decreases n,
{
    if n == 0 {
        1
    } else {
        10 * pow10((n - 1) as nat)
    }
}

/// The characters before the first `'.'` of `s` (all of `s` without one).
pub open spec fn int_part(s: Seq<char>) -> Seq<char> {
    prefix_before(s, "."@)
}

/// The characters after the first `'.'` of `s` (empty without one).
pub open spec fn frac_part(s: Seq<char>) -> Seq<char> {
    match find_first(s, "."@) {
        Some(i) => s.skip(i + 1),
        None => Seq::empty(),
    }
}

/// `s` is a plain decimal number: digits with at most one point and at
/// least one digit.  Signs, exponents and anything else are rejected.
pub open spec fn valid_fixed4(s: Seq<char>) -> bool {
    &&& all_digits(int_part(s))
    &&& all_digits(frac_part(s))
    &&& int_part(s).len() + frac_part(s).len() >= 1
}

/// Fraction digits scaled to ten-thousandths: the first four fraction
/// digits, right-padded with zeros; further digits are truncated.
pub open spec fn frac4_val(f: Seq<char>) -> int {
    if f.len() >= 4 {
        digits_val(f.take(4))
    } else {
        digits_val(f) * pow10((4 - f.len()) as nat)
    }
}

/// Value of a valid decimal string in ten-thousandths.
pub open spec fn fixed4_val(s: Seq<char>) -> int {
    digits_val(int_part(s)) * 10000 + frac4_val(frac_part(s))
}

proof fn lemma_digits_val_take_step(s: Seq<char>, i: int)
    requires
        0 <= i < s.len(),
    ensures
        digits_val(s.take(i + 1)) == digits_val(s.take(i)) * 10 + digit_val(s[i]),
{
    assert(s.take(i + 1).drop_last() =~= s.take(i));
    assert(s.take(i + 1).last() == s[i]);
}

proof fn lemma_digits_val_nonneg(s: Seq<char>)
    requires
        all_digits(s),
    ensures
        digits_val(s) >= 0,
    decreases s.len(),
{
    if s.len() > 0 {
        assert(all_digits(s.drop_last()));
        lemma_digits_val_nonneg(s.drop_last());
    }
}

proof fn lemma_digits_val_bound(s: Seq<char>)
    requires
        all_digits(s),
    ensures
        0 <= digits_val(s) < pow10(s.len()),
    decreases s.len(),
{
    if s.len() == 0 {
    } else {
        assert(all_digits(s.drop_last()));
        lemma_digits_val_bound(s.drop_last());
    }
}

proof fn lemma_digits_val_prefix_le(s: Seq<char>, i: int)
    requires
        all_digits(s),
        0 <= i <= s.len(),
    ensures
        digits_val(s.take(i)) <= digits_val(s),
    decreases s.len() - i,
{
    if i == s.len() {
        assert(s.take(i) =~= s);
    } else {
        lemma_digits_val_take_step(s, i);
        assert(all_digits(s.take(i))) by {
            assert(forall|j: int| 0 <= j < i ==> s.take(i)[j] == s[j]);
        }
        lemma_digits_val_nonneg(s.take(i));
        lemma_digits_val_prefix_le(s, i + 1);
    }
}

/// `acc * 10 + d` stays within `u64` exactly when `acc <= (u64::MAX - d) / 10`.
proof fn lemma_push_digit(acc: int, d: int)
    requires
        0 <= acc,
        0 <= d < 10,
    ensures
        acc <= ((u64::MAX - d) as int) / 10 ==> acc * 10 + d <= u64::MAX,
        acc > ((u64::MAX - d) as int) / 10 ==> acc * 10 + d > u64::MAX,
{
    let m = (u64::MAX - d) as int;
    let q = m / 10;
    lemma_fundamental_div_mod(m, 10);
    if acc <= q {
        lemma_mul_inequality(acc, q, 10);
    } else {
        lemma_mul_inequality(q + 1, acc, 10);
    }
}

/// Parses a run of decimal digits as a `u64`; the empty string is 0.
fn parse_digits_u64(t: &str) -> (r: Option<u64>)
    ensures
        match r {
            Some(v) => all_digits(t@) && v == digits_val(t@),
            None => !all_digits(t@) || digits_val(t@) > u64::MAX,
        },
{
    let len = t.unicode_len();
    let mut acc: u64 = 0;
    let mut i: usize = 0;
    while i < len
        invariant
            len == t@.len(),
            0 <= i <= len,
            all_digits(t@.take(i as int)),
            acc == digits_val(t@.take(i as int)),
        decreases len - i,
    {
        let c = t.get_char(i);
        let cv = c as u32;
        if cv < 48 || cv > 57 {
            assert(!all_digits(t@));
            return None;
        }
        let d = (cv - 48) as u64;
        proof {
            lemma_digits_val_nonneg(t@.take(i as int));
            lemma_push_digit(acc as int, d as int);
            lemma_digits_val_take_step(t@, i as int);
        }
        if acc > (u64::MAX - d) / 10 {
            proof {
                if all_digits(t@) {
                    lemma_digits_val_prefix_le(t@, i + 1);
                }
            }
            return None;
        }
        acc = acc * 10 + d;
        assert(all_digits(t@.take(i as int + 1))) by {
            assert(forall|j: int| 0 <= j < i ==> t@.take(i as int + 1)[j] == t@.take(i as int)[j]);
            assert(t@.take(i as int + 1)[i as int] == t@[i as int]);
        }
        i = i + 1;
    }
    proof {
        assert(t@.take(len as int) =~= t@);
    }
    Some(acc)
}

/// Parses a decimal credit string into ten-thousandths.
///
/// Returns `None` when the string is not a plain decimal number or the
/// amount does not fit in a `u64`.
pub fn parse_fixed4(s: &str) -> (r: Option<u64>)
    ensures
        match r {
            Some(v) => valid_fixed4(s@) && v == fixed4_val(s@),
            None => !valid_fixed4(s@) || fixed4_val(s@) > u64::MAX,
        },
{
    proof {
        reveal_strlit(".");
        crate::text::lemma_find_first_props(s@, "."@);
    }
    let len = s.unicode_len();
    let dot = crate::text::find_str(s, ".");
    let d: usize = match dot {
        Some(i) => i,
        None => len,
    };
    let ip = s.substring_char(0, d);
    let fp = if d < len {
        s.substring_char(d + 1, len)
    } else {
        s.substring_char(len, len)
    };
    proof {
        assert(ip@ =~= int_part(s@));
        assert(fp@ =~= frac_part(s@));
    }
    if ip.unicode_len() == 0 && fp.unicode_len() == 0 {
        return None;
    }
    let iv = match parse_digits_u64(ip) {
        Some(v) => v,
        None => {
            proof {
                if all_digits(ip@) && all_digits(fp@) {
                    frac4_nonneg(fp@);
                    lemma_mul_inequality(1, 10000, digits_val(ip@));
                }
            }
            return None;
        },
    };
    let fv = match parse_frac4(fp) {
        Some(v) => v,
        None => {
            return None;
        },
    };
    proof {
        lemma_digits_val_nonneg(ip@);
        lemma_push_scale(iv as int, fv as int);
    }
    if iv > (u64::MAX - fv) / 10000 {
        return None;
    }
    Some(iv * 10000 + fv)
}

proof fn frac4_nonneg(f: Seq<char>)
    requires
        all_digits(f),
    ensures
        0 <= frac4_val(f) <= 9999,
{
    if f.len() >= 4 {
        assert(all_digits(f.take(4))) by {
            assert(forall|j: int| 0 <= j < 4 ==> f.take(4)[j] == f[j]);
        }
        lemma_digits_val_bound(f.take(4));
        lemma_pow10_small(4);
    } else {
        let l = f.len() as nat;
        let dv = digits_val(f);
        let p = pow10((4 - l) as nat);
        lemma_digits_val_bound(f);
        lemma_pow10_split(l, (4 - l) as nat);
        lemma_pow10_small(4);
        lemma_mul_inequality(0, dv, p);
        lemma_mul_inequality(dv, pow10(l) - 1, p);
        assert((pow10(l) - 1) * p == pow10(l) * p - p) by (nonlinear_arith);
    }
}

proof fn lemma_pow10_split(a: nat, b: nat)
    ensures
        pow10(a + b) == pow10(a) * pow10(b),
        pow10(b) >= 1,
    decreases a,
{
    if a == 0 {
        lemma_pow10_pos(b);
    } else {
        lemma_pow10_split((a - 1) as nat, b);
        assert(pow10((a + b - 1) as nat) == pow10((a - 1) as nat) * pow10(b));
        assert(pow10(a + b) == 10 * (pow10((a - 1) as nat) * pow10(b)));
        assert(10 * (pow10((a - 1) as nat) * pow10(b)) == (10 * pow10((a - 1) as nat)) * pow10(
            b,
        )) by (nonlinear_arith);
    }
}

proof fn lemma_pow10_pos(n: nat)
    ensures
        pow10(n) >= 1,
    decreases n,
{
    if n > 0 {
        lemma_pow10_pos((n - 1) as nat);
    }
}

/// `iv * 10000 + fv` stays within `u64` exactly when
/// `iv <= (u64::MAX - fv) / 10000`.
proof fn lemma_push_scale(iv: int, fv: int)
    requires
        0 <= iv,
        0 <= fv < 10000,
    ensures
        iv <= ((u64::MAX - fv) as int) / 10000 ==> iv * 10000 + fv <= u64::MAX,
        iv > ((u64::MAX - fv) as int) / 10000 ==> iv * 10000 + fv > u64::MAX,
{
    let m = (u64::MAX - fv) as int;
    let q = m / 10000;
    lemma_fundamental_div_mod(m, 10000);
    if iv <= q {
        lemma_mul_inequality(iv, q, 10000);
    } else {
        lemma_mul_inequality(q + 1, iv, 10000);
    }
}

/// Parses the fraction digits and scales them to ten-thousandths.
fn parse_frac4(f: &str) -> (r: Option<u64>)
    ensures
        match r {
            Some(v) => all_digits(f@) && v == frac4_val(f@) && v <= 9999,
            None => !all_digits(f@),
        },
{
    let len = f.unicode_len();
    let mut acc: u64 = 0;
    let mut i: usize = 0;
    let stop = if len < 4 {
        len
    } else {
        4
    };
    while i < stop
        invariant
            len == f@.len(),
            stop == if len < 4 { len as int } else { 4 },
            0 <= i <= stop,
            all_digits(f@.take(i as int)),
            acc == digits_val(f@.take(i as int)),
            acc < pow10(i as nat),
        decreases stop - i,
    {
        let c = f.get_char(i);
        let cv = c as u32;
        if cv < 48 || cv > 57 {
            assert(!all_digits(f@));
            return None;
        }
        let d = (cv - 48) as u64;
        proof {
            lemma_digits_val_take_step(f@, i as int);
            lemma_pow10_small(i as nat);
        }
        acc = acc * 10 + d;
        proof {
            assert(all_digits(f@.take(i as int + 1))) by {
                assert(forall|j: int| 0 <= j < i ==> f@.take(i as int + 1)[j] == f@.take(
                    i as int,
                )[j]);
                assert(f@.take(i as int + 1)[i as int] == f@[i as int]);
            }
            lemma_digits_val_bound(f@.take(i as int + 1));
        }
        i = i + 1;
    }
    // validate any remaining fraction digits (they are truncated)
    let mut j: usize = stop;
    while j < len
        invariant
            len == f@.len(),
            stop <= j <= len,
            stop == if len < 4 { len as int } else { 4 },
            all_digits(f@.take(j as int)),
        decreases len - j,
    {
        let c = f.get_char(j);
        let cv = c as u32;
        if cv < 48 || cv > 57 {
            assert(!all_digits(f@));
            return None;
        }
        assert(all_digits(f@.take(j as int + 1))) by {
            assert(forall|k: int| 0 <= k < j ==> f@.take(j as int + 1)[k] == f@.take(j as int)[k]);
            assert(f@.take(j as int + 1)[j as int] == f@[j as int]);
        }
        j = j + 1;
    }
    proof {
        assert(f@.take(len as int) =~= f@);
    }
    // pad short fractions with zeros
    let mut k: usize = stop;
    proof {
        if len >= 4 {
            assert(f@.take(4) =~= f@.take(stop as int));
        } else {
            assert(f@.take(stop as int) =~= f@);
            assert(pow10(0) == 1);
            assert(digits_val(f@) * pow10(0) == digits_val(f@)) by (nonlinear_arith)
                requires
                    pow10(0) == 1,
            ;
        }
    }
    while k < 4
        invariant
            stop <= k <= 4,
            stop == if len < 4 { len as int } else { 4 },
            len == f@.len(),
            all_digits(f@),
            len < 4 ==> acc == digits_val(f@) * pow10((k - len) as nat),
            len >= 4 ==> acc == digits_val(f@.take(4)) && k == 4,
            acc < pow10(k as nat),
        decreases 4 - k,
    {
        proof {
            lemma_pow10_small(k as nat);
            lemma_digits_val_nonneg(f@);
            if len < 4 {
                let dv = digits_val(f@);
                let m = (k - len) as nat;
                assert(pow10(m + 1) == 10 * pow10(m));
                assert(((k + 1) - len) as nat == m + 1);
                assert(dv * pow10(m) * 10 == dv * (10 * pow10(m))) by (nonlinear_arith);
            }
            assert(pow10(k as nat + 1) == 10 * pow10(k as nat));
        }
        acc = acc * 10;
        k = k + 1;
    }
    proof {
        lemma_pow10_small(4);
    }
    Some(acc)
}

/// The digit character for `d`.
pub open spec fn digit_char(d: int) -> char {
    if d == 0 {
        '0'
    } else if d == 1 {
        '1'
    } else if d == 2 {
        '2'
    } else if d == 3 {
        '3'
    } else if d == 4 {
        '4'
    } else if d == 5 {
        '5'
    } else if d == 6 {
        '6'
    } else if d == 7 {
        '7'
    } else if d == 8 {
        '8'
    } else {
        '9'
    }
}

/// Decimal digits of `n`, most significant first, without leading zeros
/// (`0` renders as `"0"`).
pub open spec fn dec_digits(n: int) -> Seq<char>
    decreases n,
{
    if n < 10 {
        seq![digit_char(n)]
    } else {
        dec_digits(n / 10).push(digit_char(n % 10))
    }
}

/// The four zero-padded fraction digits of `m`, which is below 10000.
pub open spec fn frac4_digits(m: int) -> Seq<char> {
    seq![
        digit_char(m / 1000),
        digit_char((m / 100) % 10),
        digit_char((m / 10) % 10),
        digit_char(m % 10),
    ]
}

/// Rendering of an amount in ten-thousandths: the integer part, a point,
/// and exactly four fraction digits, as in `"2.5000"`.
pub open spec fn fixed4_digits(v: int) -> Seq<char> {
    dec_digits(v / 10000) + seq!['.'] + frac4_digits(v % 10000)
}

/// The single-character string for digit `d`.
fn digit_str(d: u64) -> (r: &'static str)
    requires
        d < 10,
    ensures
        r@ == seq![digit_char(d as int)],
{
    proof {
        reveal_strlit("0");
        reveal_strlit("1");
        reveal_strlit("2");
        reveal_strlit("3");
        reveal_strlit("4");
        reveal_strlit("5");
        reveal_strlit("6");
        reveal_strlit("7");
        reveal_strlit("8");
        reveal_strlit("9");
    }
    let r = if d == 0 {
        "0"
    } else if d == 1 {
        "1"
    } else if d == 2 {
        "2"
    } else if d == 3 {
        "3"
    } else if d == 4 {
        "4"
    } else if d == 5 {
        "5"
    } else if d == 6 {
        "6"
    } else if d == 7 {
        "7"
    } else if d == 8 {
        "8"
    } else {
        "9"
    };
    proof {
        assert(r@ =~= seq![digit_char(d as int)]);
    }
    r
}

/// Appends the decimal digits of `n` to `s`.
fn append_dec(s: &mut String, n: u64)
    ensures
        final(s)@ == old(s)@ + dec_digits(n as int),
    decreases n,
{
    if n < 10 {
        s.append(digit_str(n));
        assert(final(s)@ =~= old(s)@ + dec_digits(n as int));
    } else {
        proof {
            assert(n / 10 < n) by (nonlinear_arith)
                requires
                    n >= 10,
            ;
        }
        append_dec(s, n / 10);
        s.append(digit_str(n % 10));
        assert(final(s)@ =~= old(s)@ + dec_digits(n as int));
    }
}

/// Renders an amount in ten-thousandths with four fraction digits.
pub fn format_fixed4(v: u64) -> (r: String)
    ensures
        r@ == fixed4_digits(v as int),
{
    let mut s = String::new();
    append_dec(&mut s, v / 10000);
    proof {
        reveal_strlit(".");
    }
    s.append(".");
    let m = v % 10000;
    proof {
        assert(m / 1000 < 10 && (m / 100) % 10 < 10 && (m / 10) % 10 < 10 && m % 10 < 10)
            by (nonlinear_arith)
            requires
                m < 10000,
        ;
    }
    s.append(digit_str(m / 1000));
    s.append(digit_str((m / 100) % 10));
    s.append(digit_str((m / 10) % 10));
    s.append(digit_str(m % 10));
    proof {
        assert(s@ =~= fixed4_digits(v as int));
    }
    s
}

proof fn lemma_pow10_small(n: nat)
    requires
        n <= 4,
    ensures
        pow10(n) <= 10000,
{
    assert(pow10(0) == 1);
    assert(pow10(1) == 10 * pow10(0));
    assert(pow10(2) == 10 * pow10(1));
    assert(pow10(3) == 10 * pow10(2));
    assert(pow10(4) == 10 * pow10(3));
}

} // verus!
