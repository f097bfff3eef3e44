//! Numeric literals.
//!
//! A literal is a run of digits, at most one `.` followed by more digits, and
//! an optional `e` exponent with an optional `-` sign.  Its value is the exact
//! rational `mantissa * 10^net`, where the mantissa is the digit string with
//! the dot removed and `net` is the signed exponent minus the number of
//! fraction digits.

use vstd::prelude::*;

use crate::errors::ErrorKind;
use crate::rational::{fits_i64, rat_fits, rat_wf, Rat, Rational};

verus! {

/// A decimal digit character.
pub open spec fn is_digit(c: char) -> bool {
    48 <= c as u32 && c as u32 <= 57
}

/// The numeric value of a digit character.
pub open spec fn digit_val(c: char) -> int {
    c as u32 - 48
}

/// The first index at or after `i` that does not hold a digit.
pub open spec fn digits_end(s: Seq<char>, i: int) -> int
    decreases s.len() - i,
{
    if 0 <= i < s.len() && is_digit(s[i]) {
        digits_end(s, i + 1)
    } else {
        i
    }
}

/// The value of the digit run `s[i..j]`, most significant digit first.
pub open spec fn digits_val(s: Seq<char>, i: int, j: int) -> int
    decreases j - i,
{
    if i < j {
        digits_val(s, i, j - 1) * 10 + digit_val(s[j - 1])
    } else {
        0
    }
}

/// Ten to the power `e`.
pub open spec fn pow10(e: nat) -> int
    decreases e,
{
    if e == 0 {
        1
    } else {
        10 * pow10((e - 1) as nat)
    }
}

pub proof fn lemma_digits_end_props(s: Seq<char>, i: int)
    requires
        0 <= i <= s.len(),
    ensures
        i <= digits_end(s, i) <= s.len(),
        forall|k: int| i <= k < digits_end(s, i) ==> is_digit(#[trigger] s[k]),
        digits_end(s, i) < s.len() ==> !is_digit(s[digits_end(s, i)]),
    decreases s.len() - i,
{
    if i < s.len() && is_digit(s[i]) {
        lemma_digits_end_props(s, i + 1);
    }
}

pub proof fn lemma_digits_val_nonneg(s: Seq<char>, i: int, j: int)
    requires
        forall|k: int| i <= k < j ==> is_digit(#[trigger] s[k]),
    ensures
        digits_val(s, i, j) >= 0,
    decreases j - i,
{
    if i < j {
        lemma_digits_val_nonneg(s, i, j - 1);
    }
}

/// Appending digits never shrinks the value of a digit run.
pub proof fn lemma_digits_val_prefix_le(s: Seq<char>, i: int, j: int, k: int)
    requires
        i <= j <= k,
        forall|m: int| i <= m < k ==> is_digit(#[trigger] s[m]),
    ensures
        digits_val(s, i, j) <= digits_val(s, i, k),
    decreases k - j,
{
    if j < k {
        lemma_digits_val_prefix_le(s, i, j, k - 1);
        lemma_digits_val_nonneg(s, i, k - 1);
    }
}

pub proof fn lemma_pow10_pos(e: nat)
    ensures
        pow10(e) >= 1,
    decreases e,
{
    if e > 0 {
        lemma_pow10_pos((e - 1) as nat);
    }
}

pub proof fn lemma_pow10_mono(a: nat, b: nat)
    requires
        a <= b,
    ensures
        pow10(a) <= pow10(b),
    decreases b,
{
    if a < b {
        lemma_pow10_mono(a, (b - 1) as nat);
        lemma_pow10_pos((b - 1) as nat);
    }
}

/// From the 19th power on, a power of ten no longer fits the 64-bit range.
pub proof fn lemma_pow10_huge(e: nat)
    requires
        e >= 19,
    ensures
        pow10(e) > i64::MAX as int,
{
    assert(pow10(19) == 10_000_000_000_000_000_000) by {
        reveal_with_fuel(pow10, 20);
    }
    lemma_pow10_mono(19, e);
}

/// End of the integer-part digit run.
pub open spec fn lit_int_end(lit: Seq<char>) -> int {
    digits_end(lit, 0)
}

/// Whether a fraction dot follows the integer part.
pub open spec fn lit_has_dot(lit: Seq<char>) -> bool {
    lit_int_end(lit) < lit.len() && lit[lit_int_end(lit)] == '.'
}

/// End of the fraction digit run (equals the integer end without a dot).
pub open spec fn lit_frac_end(lit: Seq<char>) -> int {
    if lit_has_dot(lit) {
        digits_end(lit, lit_int_end(lit) + 1)
    } else {
        lit_int_end(lit)
    }
}

/// How many digits follow the dot.
pub open spec fn lit_frac_len(lit: Seq<char>) -> int {
    if lit_has_dot(lit) {
        lit_frac_end(lit) - lit_int_end(lit) - 1
    } else {
        0
    }
}

/// Whether an exponent marker follows the mantissa.
pub open spec fn lit_has_exp(lit: Seq<char>) -> bool {
    lit_frac_end(lit) < lit.len() && lit[lit_frac_end(lit)] == 'e'
}

/// Whether the exponent carries a minus sign.
pub open spec fn lit_exp_neg(lit: Seq<char>) -> bool {
    lit_has_exp(lit) && lit_frac_end(lit) + 1 < lit.len() && lit[lit_frac_end(lit) + 1] == '-'
}

/// First index of the exponent digits.
pub open spec fn lit_exp_start(lit: Seq<char>) -> int {
    lit_frac_end(lit) + (if lit_exp_neg(lit) {
        2int
    } else {
        1int
    })
}

/// A well-formed literal: at least one integer digit, and, when an exponent
/// marker appears, at least one exponent digit reaching the end of the text.
/// Without an exponent the mantissa digits must cover the whole text.
pub open spec fn valid_literal(lit: Seq<char>) -> bool {
    lit_int_end(lit) >= 1 && (if lit_has_exp(lit) {
        lit_exp_start(lit) < lit.len() && digits_end(lit, lit_exp_start(lit)) == lit.len()
    } else {
        lit_frac_end(lit) == lit.len()
    })
}

/// The mantissa digit string: integer digits with the fraction digits
/// appended (the dot removed).
pub open spec fn lit_mantissa_digits(lit: Seq<char>) -> Seq<char> {
    lit.subrange(0, lit_int_end(lit)) + (if lit_has_dot(lit) {
        lit.subrange(lit_int_end(lit) + 1, lit_frac_end(lit))
    } else {
        Seq::<char>::empty()
    })
}

/// The mantissa value.
pub open spec fn lit_mantissa(lit: Seq<char>) -> int {
    digits_val(lit_mantissa_digits(lit), 0, lit_mantissa_digits(lit).len() as int)
}

/// The unsigned exponent value.
pub open spec fn lit_exp_mag(lit: Seq<char>) -> int {
    if lit_has_exp(lit) {
        digits_val(lit, lit_exp_start(lit), lit.len() as int)
    } else {
        0
    }
}

/// The net power of ten: signed exponent minus the fraction length.
pub open spec fn lit_net(lit: Seq<char>) -> int {
    (if lit_exp_neg(lit) {
        -lit_exp_mag(lit)
    } else {
        lit_exp_mag(lit)
    }) - lit_frac_len(lit)
}

/// The exact rational value of a literal.
pub open spec fn lit_rat(lit: Seq<char>) -> Rat {
    if lit_mantissa(lit) == 0 {
        Rat { n: 0, d: 1 }
    } else if lit_net(lit) >= 0 {
        Rat { n: lit_mantissa(lit) * pow10(lit_net(lit) as nat), d: 1 }
    } else {
        Rat { n: lit_mantissa(lit), d: pow10((-lit_net(lit)) as nat) }
    }
}

/// Every character of the mantissa digit string is a digit.
pub proof fn lemma_mantissa_digits_are_digits(lit: Seq<char>)
    ensures
        forall|k: int|
            0 <= k < lit_mantissa_digits(lit).len() ==> is_digit(
                #[trigger] lit_mantissa_digits(lit)[k],
            ),
{
    lemma_digits_end_props(lit, 0);
    if lit_has_dot(lit) {
        lemma_digits_end_props(lit, lit_int_end(lit) + 1);
    }
}

/// The value of a literal always has a positive denominator and a
/// non-negative numerator.
pub proof fn lemma_lit_rat_wf(lit: Seq<char>)
    ensures
        rat_wf(lit_rat(lit)),
        lit_rat(lit).n >= 0,
{
    lemma_mantissa_digits_are_digits(lit);
    let m = lit_mantissa_digits(lit);
    lemma_digits_val_nonneg(m, 0, m.len() as int);
    if lit_mantissa(lit) != 0 {
        if lit_net(lit) >= 0 {
            lemma_pow10_pos(lit_net(lit) as nat);
            assert(lit_mantissa(lit) * pow10(lit_net(lit) as nat) >= 0) by (nonlinear_arith)
                requires
                    lit_mantissa(lit) >= 0,
                    pow10(lit_net(lit) as nat) >= 1,
            ;
        } else {
            lemma_pow10_pos((-lit_net(lit)) as nat);
        }
    }
}

/// A mantissa beyond the 64-bit range makes the whole value unrepresentable.
pub proof fn lemma_mantissa_overflow(lit: Seq<char>)
    requires
        lit_mantissa(lit) > i64::MAX as int,
    ensures
        !rat_fits(lit_rat(lit)),
{
    if lit_net(lit) >= 0 {
        lemma_pow10_pos(lit_net(lit) as nat);
        assert(lit_mantissa(lit) * pow10(lit_net(lit) as nat) >= lit_mantissa(lit))
            by (nonlinear_arith)
            requires
                lit_mantissa(lit) >= 0,
                pow10(lit_net(lit) as nat) >= 1,
        ;
    }
}

/// A net power of ten of nineteen or more, in either direction, makes a
/// non-zero value unrepresentable.
pub proof fn lemma_net_overflow(lit: Seq<char>)
    requires
        lit_mantissa(lit) >= 1,
        lit_net(lit) >= 19 || lit_net(lit) <= -19,
    ensures
        !rat_fits(lit_rat(lit)),
{
    if lit_net(lit) >= 19 {
        lemma_pow10_huge(lit_net(lit) as nat);
        assert(lit_mantissa(lit) * pow10(lit_net(lit) as nat) >= pow10(lit_net(lit) as nat))
            by (nonlinear_arith)
            requires
                lit_mantissa(lit) >= 1,
                pow10(lit_net(lit) as nat) >= 1,
        ;
    } else {
        lemma_pow10_huge((-lit_net(lit)) as nat);
    }
}

/// Exec check for a digit character.
pub(crate) fn is_digit_exec(c: char) -> (b: bool)
    ensures
        b == is_digit(c),
{
    let u = c as u32;
    48 <= u && u <= 57
}

/// Scans the digit run of `lit` that starts at `start`.
fn scan_digits(lit: &Vec<char>, start: usize) -> (end: usize)
    requires
        start <= lit@.len(),
    ensures
        end as int == digits_end(lit@, start as int),
        start <= end <= lit@.len(),
    decreases lit@.len() - start,
{
    let n = lit.len();
    let mut i = start;
    loop
        invariant
            start <= i <= n,
            n == lit@.len(),
            digits_end(lit@, start as int) == digits_end(lit@, i as int),
        ensures
            i as int == digits_end(lit@, start as int),
        decreases n - i,
    {
        if i < n {
            let c = lit[i];
            if is_digit_exec(c) {
                i = i + 1;
                continue ;
            }
        }
        break ;
    }
    proof {
        lemma_digits_end_props(lit@, start as int);
    }
    i
}

/// Computes ten to the power `e` for exponents that fit the 64-bit range.
fn pow10_exec(e: usize) -> (r: i64)
    requires
        e <= 18,
    ensures
        r as int == pow10(e as nat),
        1 <= r as int <= pow10(18),
{
    let mut acc: i64 = 1;
    let mut k: usize = 0;
    proof {
        lemma_pow10_pos(e as nat);
        assert(pow10(18) == 1_000_000_000_000_000_000) by {
            reveal_with_fuel(pow10, 19);
        }
    }
    while k < e
        invariant
            k <= e <= 18,
            acc as int == pow10(k as nat),
            pow10(18) == 1_000_000_000_000_000_000,
        decreases e - k,
    {
        proof {
            lemma_pow10_mono(k as nat + 1, 18);
            lemma_pow10_pos(k as nat);
        }
        acc = acc * 10;
        k = k + 1;
    }
    proof {
        lemma_pow10_mono(e as nat, 18);
        lemma_pow10_pos(e as nat);
    }
    acc
}

/// Turns the accumulated text of a numeric literal into its exact rational
/// value; reports a malformed literal, or one whose exact value leaves the
/// representable range.
pub(crate) fn parse_literal(lit: &Vec<char>) -> (r: Result<Rational, ErrorKind>)
    ensures
        !valid_literal(lit@) ==> r == Err::<Rational, ErrorKind>(ErrorKind::NumberFormat),
        valid_literal(lit@) && !rat_fits(lit_rat(lit@)) ==> r == Err::<Rational, ErrorKind>(
            ErrorKind::NumericOverflow,
        ),
        valid_literal(lit@) && rat_fits(lit_rat(lit@)) ==> (r matches Ok(v) && v.wf() && v@
            == lit_rat(lit@)),
{
    let n = lit.len();
    let i1 = scan_digits(lit, 0);
    if i1 == 0 {
        return Err(ErrorKind::NumberFormat);
    }
    let has_dot = i1 < n && lit[i1] == '.';
    let i2 = if has_dot {
        scan_digits(lit, i1 + 1)
    } else {
        i1
    };
    proof {
        assert(lit_int_end(lit@) == i1 as int);
        assert(lit_has_dot(lit@) == has_dot);
        assert(lit_frac_end(lit@) == i2 as int);
    }
    // Validate the exponent part before computing any value, so that a
    // malformed literal is always reported as malformed.
    let has_exp = i2 < n && lit[i2] == 'e';
    if !has_exp && i2 != n {
        return Err(ErrorKind::NumberFormat);
    }
    let mut exp_neg = false;
    let mut es: usize = n;
    if has_exp {
        exp_neg = i2 + 1 < n && lit[i2 + 1] == '-';
        es = if exp_neg {
            i2 + 2
        } else {
            i2 + 1
        };
        if es >= n {
            return Err(ErrorKind::NumberFormat);
        }
        let i4 = scan_digits(lit, es);
        if i4 != n {
            return Err(ErrorKind::NumberFormat);
        }
    }
    proof {
        assert(lit_has_exp(lit@) == has_exp);
        if has_exp {
            assert(lit_exp_neg(lit@) == exp_neg);
            assert(lit_exp_start(lit@) == es as int);
        }
        assert(valid_literal(lit@));
    }
    // Mantissa: fold the integer digits, then the fraction digits.
    let ghost md = lit_mantissa_digits(lit@);
    proof {
        lemma_mantissa_digits_are_digits(lit@);
        lemma_digits_end_props(lit@, 0);
        if has_dot {
            lemma_digits_end_props(lit@, i1 as int + 1);
        }
    }
    let max64: i128 = i64::MAX as i128;
    let mut acc: i128 = 0;
    let mut k: usize = 0;
    while k < i1
        invariant
            0 <= k <= i1 <= n,
            n == lit@.len(),
            i1 as int == lit_int_end(lit@),
            md == lit_mantissa_digits(lit@),
            max64 == i64::MAX as i128,
            k <= md.len(),
            i1 <= md.len(),
            forall|m: int| 0 <= m < md.len() ==> is_digit(#[trigger] md[m]),
            forall|m: int| 0 <= m < i1 ==> #[trigger] md[m] == lit@[m],
            acc as int == digits_val(md, 0, k as int),
            0 <= acc <= max64,
            valid_literal(lit@),
        decreases i1 - k,
    {
        let c = lit[k];
        proof {
            assert(md[k as int] == lit@[k as int]);
        }
        let d = (c as u32 - 48) as i128;
        let acc2 = acc * 10 + d;
        if acc2 > max64 {
            proof {
                lemma_digits_val_prefix_le(md, 0, k as int + 1, md.len() as int);
                lemma_mantissa_overflow(lit@);
            }
            return Err(ErrorKind::NumericOverflow);
        }
        acc = acc2;
        k = k + 1;
    }
    if has_dot {
        let mut k2 = i1 + 1;
        while k2 < i2
            invariant
                i1 as int + 1 <= k2 <= i2,
                i2 <= n == lit@.len(),
                i1 as int == lit_int_end(lit@),
                i2 as int == lit_frac_end(lit@),
                lit_has_dot(lit@),
                md == lit_mantissa_digits(lit@),
                max64 == i64::MAX as i128,
                md.len() == i2 - 1,
                forall|m: int| 0 <= m < md.len() ==> is_digit(#[trigger] md[m]),
                forall|m: int| i1 <= m < md.len() ==> #[trigger] md[m] == lit@[m + 1],
                acc as int == digits_val(md, 0, k2 - 1),
                0 <= acc <= max64,
                valid_literal(lit@),
            decreases i2 - k2,
        {
            let c = lit[k2];
            proof {
                assert(md[k2 as int - 1] == lit@[k2 as int]);
            }
            let d = (c as u32 - 48) as i128;
            let acc2 = acc * 10 + d;
            if acc2 > max64 {
                proof {
                    lemma_digits_val_prefix_le(md, 0, k2 as int, md.len() as int);
                    lemma_mantissa_overflow(lit@);
                }
                return Err(ErrorKind::NumericOverflow);
            }
            acc = acc2;
            k2 = k2 + 1;
        }
    }
    proof {
        assert(md.len() as int == (if lit_has_dot(lit@) {
            i2 - 1
        } else {
            i1 as int
        }));
        assert(acc as int == lit_mantissa(lit@));
    }
    if acc == 0 {
        proof {
            lemma_lit_rat_wf(lit@);
        }
        return Ok(Rational::new(0, 1));
    }
    // Exponent value, capped well above any possible fraction length.
    let cap: i128 = 0x1_0000_0000_0000_0000_0000_0000;
    let mut eacc: i128 = 0;
    if has_exp {
        let mut k3 = es;
        proof {
            lemma_digits_end_props(lit@, es as int);
        }
        while k3 < n
            invariant
                es <= k3 <= n,
                n == lit@.len(),
                valid_literal(lit@),
                lit_has_exp(lit@),
                lit_exp_neg(lit@) == exp_neg,
                es as int == lit_exp_start(lit@),
                digits_end(lit@, es as int) == n,
                acc as int == lit_mantissa(lit@),
                1 <= acc <= max64,
                max64 == i64::MAX as i128,
                cap == 0x1_0000_0000_0000_0000_0000_0000,
                forall|m: int| es <= m < n ==> is_digit(#[trigger] lit@[m]),
                eacc as int == digits_val(lit@, es as int, k3 as int),
                0 <= eacc <= cap,
            decreases n - k3,
        {
            let c = lit[k3];
            let d = (c as u32 - 48) as i128;
            let eacc2 = eacc * 10 + d;
            if eacc2 > cap {
                proof {
                    lemma_digits_val_prefix_le(lit@, es as int, k3 as int + 1, n as int);
                    assert(lit_exp_mag(lit@) >= eacc2);
                    assert(lit_net(lit@) >= 19 || lit_net(lit@) <= -19);
                    lemma_net_overflow(lit@);
                }
                return Err(ErrorKind::NumericOverflow);
            }
            eacc = eacc2;
            k3 = k3 + 1;
        }
    }
    proof {
        assert(eacc as int == lit_exp_mag(lit@));
    }
    let frac_len: i128 = if has_dot {
        (i2 - i1 - 1) as i128
    } else {
        0
    };
    let net: i128 = (if exp_neg {
        -eacc
    } else {
        eacc
    }) - frac_len;
    proof {
        assert(net as int == lit_net(lit@));
    }
    if net >= 19 || net <= -19 {
        proof {
            lemma_net_overflow(lit@);
        }
        return Err(ErrorKind::NumericOverflow);
    }
    if net >= 0 {
        let p = pow10_exec(net as usize);
        proof {
            crate::rational::lemma_i64_prod_bound(acc as int, p as int);
        }
        let num = acc * (p as i128);
        if num > max64 {
            proof {
                assert(!fits_i64(lit_rat(lit@).n));
            }
            return Err(ErrorKind::NumericOverflow);
        }
        proof {
            lemma_lit_rat_wf(lit@);
        }
        Ok(Rational::new(num as i64, 1))
    } else {
        let m = (-net) as usize;
        let den = pow10_exec(m);
        proof {
            lemma_pow10_mono(m as nat, 18);
            assert(pow10(18) == 1_000_000_000_000_000_000) by {
                reveal_with_fuel(pow10, 19);
            }
            lemma_lit_rat_wf(lit@);
        }
        Ok(Rational::new(acc as i64, den))
    }
}

} // verus!
