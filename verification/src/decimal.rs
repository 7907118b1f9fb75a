//! Decimal rendering of integers and of payment amounts.
//!
//! A debt total is an integer number of minor currency units (cents). The
//! amount sent to the pay endpoint denotes exactly `total / 100` currency
//! units: a plain integer when the total is a whole number of units, and
//! otherwise a decimal fraction of one or two digits with no trailing zero.

use vstd::prelude::*;

verus! {

/// The digit character for a value in `0 ..= 9`.
pub open spec fn digit_char(d: int) -> char {
    if d == 0 {
        '0'
    } else if d == 1 {
        '1'
    } else if d == 2 {
        '2'
    } else if d == 3 {
        '3'
    } else if d == 4 {
        '4'
    } else if d == 5 {
        '5'
    } else if d == 6 {
        '6'
    } else if d == 7 {
        '7'
    } else if d == 8 {
        '8'
    } else {
        '9'
    }
}

/// Whether `c` is a decimal digit character.
pub open spec fn is_digit(c: char) -> bool {
    c == '0' || c == '1' || c == '2' || c == '3' || c == '4' || c == '5' || c == '6' || c == '7'
        || c == '8' || c == '9'
}

/// The value of a decimal digit character; `0` for any other character.
pub open spec fn digit_val(c: char) -> int {
    if c == '1' {
        1
    } else if c == '2' {
        2
    } else if c == '3' {
        3
    } else if c == '4' {
        4
    } else if c == '5' {
        5
    } else if c == '6' {
        6
    } else if c == '7' {
        7
    } else if c == '8' {
        8
    } else if c == '9' {
        9
    } else {
        0
    }
}

/// The decimal digits of a non-negative integer, most significant first.
pub open spec fn dec_digits(n: int) -> Seq<char>
    recommends
        0 <= n,
    decreases n,
{
    if n < 10 {
        seq![digit_char(n)]
    } else {
        dec_digits(n / 10).push(digit_char(n % 10))
    }
}

/// The value denoted by a sequence of decimal digit characters.
pub open spec fn dec_val(s: Seq<char>) -> int
    decreases s.len(),
{
    if s.len() == 0 {
        0
    } else {
        dec_val(s.drop_last()) * 10 + digit_val(s.last())
    }
}

/// Rendering an integer and reading the digits back gives the integer again.
pub proof fn lemma_dec_digits_val(n: int)
    requires
        0 <= n,
    ensures
        dec_val(dec_digits(n)) == n,
        dec_digits(n).len() >= 1,
        forall|i: int| 0 <= i < dec_digits(n).len() ==> is_digit(#[trigger] dec_digits(n)[i]),
    decreases n,
{
    if n < 10 {
        assert(dec_digits(n) =~= seq![digit_char(n)]);
        assert(dec_val(seq![digit_char(n)].drop_last()) == 0);
    } else {
        lemma_dec_digits_val(n / 10);
        let prefix = dec_digits(n / 10);
        let whole = prefix.push(digit_char(n % 10));
        assert(whole.drop_last() =~= prefix);
        assert(whole.last() == digit_char(n % 10));
        assert(dec_val(whole) == (n / 10) * 10 + (n % 10));
    }
}

/// The fractional digits of a cent remainder in `1 ..= 99`: one digit when
/// the remainder is a whole number of tenths, else two.
pub open spec fn frac_chars(frac: int) -> Seq<char>
    recommends
        1 <= frac <= 99,
{
    if frac % 10 == 0 {
        seq![digit_char(frac / 10)]
    } else {
        seq![digit_char(frac / 10), digit_char(frac % 10)]
    }
}

/// The number of cents denoted by rendered fractional digits.
pub open spec fn frac_denoted(s: Seq<char>) -> int
    recommends
        1 <= s.len() <= 2,
{
    if s.len() == 1 {
        digit_val(s[0]) * 10
    } else {
        digit_val(s[0]) * 10 + digit_val(s[1])
    }
}

/// The characters of the amount denoting `total / 100` currency units.
pub open spec fn amount_chars(total: int) -> Seq<char>
    recommends
        0 <= total,
{
    if total % 100 == 0 {
        dec_digits(total / 100)
    } else {
        dec_digits(total / 100) + seq!['.'] + frac_chars(total % 100)
    }
}

/// The rendered amount denotes exactly `total` cents: a total that is a
/// whole number of currency units renders as that integer with no decimal
/// point, and any other total renders as integer part, point, and fractional
/// digits that together read back as `total`.
pub proof fn lemma_amount_exact(total: int)
    requires
        0 <= total,
    ensures
        total % 100 == 0 ==> {
            &&& amount_chars(total) == dec_digits(total / 100)
            &&& dec_val(amount_chars(total)) * 100 == total
            &&& forall|i: int|
                0 <= i < amount_chars(total).len() ==> #[trigger] amount_chars(total)[i] != '.'
        },
        total % 100 != 0 ==> {
            &&& amount_chars(total) == dec_digits(total / 100) + seq!['.'] + frac_chars(
                total % 100,
            )
            &&& dec_val(dec_digits(total / 100)) * 100 + frac_denoted(frac_chars(total % 100))
                == total
        },
{
    lemma_dec_digits_val(total / 100);
    let frac = total % 100;
    if frac == 0 {
        assert(forall|i: int|
            0 <= i < amount_chars(total).len() ==> is_digit(#[trigger] amount_chars(total)[i]));
        assert(forall|c: char| is_digit(c) ==> c != '.');
    } else {
        if frac % 10 == 0 {
            assert(frac_denoted(frac_chars(frac)) == (frac / 10) * 10);
            assert((frac / 10) * 10 + frac % 10 == frac);
        } else {
            assert(frac_denoted(frac_chars(frac)) == (frac / 10) * 10 + frac % 10);
        }
        assert(dec_val(dec_digits(total / 100)) * 100 + frac_denoted(frac_chars(frac)) == (total
            / 100) * 100 + frac);
    }
}

/// The digit character for a value below ten.
pub fn digit_char_of(d: u64) -> (c: char)
    requires
        d < 10,
    ensures
        c == digit_char(d as int),
{
    if d == 0 {
        '0'
    } else if d == 1 {
        '1'
    } else if d == 2 {
        '2'
    } else if d == 3 {
        '3'
    } else if d == 4 {
        '4'
    } else if d == 5 {
        '5'
    } else if d == 6 {
        '6'
    } else if d == 7 {
        '7'
    } else if d == 8 {
        '8'
    } else {
        '9'
    }
}

/// Appends the decimal digits of `n` to `out`.
pub fn push_dec(out: &mut Vec<char>, n: u64)
    ensures
        final(out)@ == old(out)@ + dec_digits(n as int),
    decreases n,
{
    if n < 10 {
        out.push(digit_char_of(n));
        proof {
            assert(out@ =~= old(out)@ + dec_digits(n as int));
        }
    } else {
        push_dec(out, n / 10);
        out.push(digit_char_of(n % 10));
        proof {
            assert(out@ =~= old(out)@ + dec_digits(n as int));
        }
    }
}

/// Appends the amount characters for a non-negative total of cents.
pub fn push_amount(out: &mut Vec<char>, total: i64)
    requires
        0 <= total,
    ensures
        final(out)@ == old(out)@ + amount_chars(total as int),
{
    let whole: u64 = (total / 100) as u64;
    let frac: u64 = (total % 100) as u64;
    push_dec(out, whole);
    if frac != 0 {
        out.push('.');
        out.push(digit_char_of(frac / 10));
        if frac % 10 != 0 {
            out.push(digit_char_of(frac % 10));
        }
    }
    proof {
        assert(out@ =~= old(out)@ + amount_chars(total as int));
    }
}

/// The amount for a non-negative total of cents, as the decimal text that
/// denotes exactly `total / 100` currency units.
pub fn amount_decimal(total: i64) -> (r: String)
    requires
        0 <= total,
    ensures
        r@ == amount_chars(total as int),
{
    let mut out: Vec<char> = Vec::new();
    push_amount(&mut out, total);
    crate::strconv::chars_to_string(&out)
}

} // verus!
