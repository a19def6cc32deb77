//! Text building blocks: digits, bounded strings and prefixes, each stated
//! over sequences of characters.

use vstd::prelude::*;
use vstd::string::*;

verus! {

/// The character that writes the digit `d` in bases up to sixteen.
pub open spec fn digit_char(d: nat) -> char {
    if d == 0 {
        '0'
    } else if d == 1 {
        '1'
    } else if d == 2 {
        '2'
    } else if d == 3 {
        '3'
    } else if d == 4 {
        '4'
    } else if d == 5 {
        '5'
    } else if d == 6 {
        '6'
    } else if d == 7 {
        '7'
    } else if d == 8 {
        '8'
    } else if d == 9 {
        '9'
    } else if d == 10 {
        'a'
    } else if d == 11 {
        'b'
    } else if d == 12 {
        'c'
    } else if d == 13 {
        'd'
    } else if d == 14 {
        'e'
    } else {
        'f'
    }
}

/// `n` written in `base`, most significant digit first, padded with zeros on
/// the left to at least `width` digits. A number always has one digit.
pub open spec fn digits(n: nat, base: nat, width: nat) -> Seq<char>
    decreases n, width,
    via digits_terminates
{
    if base < 2 {
        Seq::empty()
    } else if n < base && width <= 1 {
        seq![digit_char(n)]
    } else {
        digits(n / base, base, if width > 0 { (width - 1) as nat } else { 0 }).push(
            digit_char(n % base),
        )
    }
}

#[via_fn]
proof fn digits_terminates(n: nat, base: nat, width: nat) {
    if base >= 2 {
        lemma_quotient_smaller(n, base);
    }
}

/// Dividing by a base of two or more never grows a number, and shrinks every
/// number but zero.
pub proof fn lemma_quotient_smaller(n: nat, base: nat)
    requires
        base >= 2,
    ensures
        n / base <= n,
        n > 0 ==> n / base < n,
        n < base ==> n / base == 0,
        n < base ==> n % base == n,
        n % base < base,
{
    assert(n / base <= n && (n > 0 ==> n / base < n) && (n < base ==> n / base == 0) && (n < base
        ==> n % base == n) && n % base < base) by (nonlinear_arith)
        requires
            base >= 2,
    ;
}

/// A signed number in decimal: a minus sign where it is negative, then its
/// magnitude.
pub open spec fn signed_decimal(n: int) -> Seq<char> {
    if n < 0 {
        seq!['-'] + digits((-n) as nat, 10, 1)
    } else {
        digits(n as nat, 10, 1)
    }
}

/// `s` cut down to its first `max` characters where it is longer.
pub open spec fn truncated(s: Seq<char>, max: nat) -> Seq<char> {
    if s.len() <= max {
        s
    } else {
        s.take(max as int)
    }
}

/// An optional string cut down like a string; an absent one stays absent.
pub open spec fn truncated_option(s: Option<Seq<char>>, max: nat) -> Option<Seq<char>> {
    match s {
        Some(text) => Some(truncated(text, max)),
        None => None,
    }
}

/// Cutting a string down a second time to the same bound changes nothing.
pub proof fn lemma_truncated_idempotent(s: Seq<char>, max: nat)
    ensures
        truncated(truncated(s, max), max) == truncated(s, max),
        truncated(s, max).len() <= max,
        s.len() <= max ==> truncated(s, max) == s,
{
}

/// The power of a base, for stating how many digits a number needs.
pub open spec fn power(base: nat, exponent: nat) -> nat
    decreases exponent,
{
    if exponent == 0 {
        1
    } else {
        base * power(base, (exponent - 1) as nat)
    }
}

/// A number below `base` to the power of `width` is written in exactly
/// `width` digits, and no number in fewer.
pub proof fn lemma_digits_len(n: nat, base: nat, width: nat)
    requires
        base >= 2,
    ensures
        digits(n, base, width).len() >= width,
        digits(n, base, width).len() >= 1,
        width >= 1 && n < power(base, width) ==> digits(n, base, width).len() == width,
    decreases n, width,
{
    lemma_quotient_smaller(n, base);
    if n < base && width <= 1 {
    } else {
        let rest: nat = if width > 0 {
            (width - 1) as nat
        } else {
            0
        };
        lemma_digits_len(n / base, base, rest);
        if width >= 1 && n < power(base, width) {
            assert(width >= 2) by {
                assert(power(base, 1) == base * power(base, 0));
                assert(power(base, 0) == 1);
                assert(base * 1 == base) by (nonlinear_arith);
            }
            let p = power(base, rest);
            assert(power(base, width) == base * p);
            assert(n / base < p) by (nonlinear_arith)
                requires
                    n < base * p,
                    base >= 2,
            ;
        }
    }
}

/// Appends the character of one digit.
fn push_digit(out: &mut String, d: u8)
    requires
        d < 16,
    ensures
        final(out)@ == old(out)@.push(digit_char(d as nat)),
{
    let table = "0123456789abcdef";
    proof {
        reveal_strlit("0123456789abcdef");
    }
    let i = d as usize;
    let piece = table.substring_char(i, i + 1);
    assert(piece@ =~= seq![digit_char(d as nat)]);
    out.append(piece);
    assert(out@ =~= old(out)@.push(digit_char(d as nat)));
}

/// Appends `n` in a base from two to sixteen, padded with zeros to `width`
/// digits.
pub fn push_number(out: &mut String, n: u128, base: u8, width: usize)
    requires
        2 <= base <= 16,
    ensures
        final(out)@ == old(out)@ + digits(n as nat, base as nat, width as nat),
    decreases n, width,
{
    let b = base as u128;
    proof {
        lemma_quotient_smaller(n as nat, base as nat);
    }
    if n >= b || width > 1 {
        let rest_width: usize = if width > 0 { width - 1 } else { 0 };
        push_number(out, n / b, base, rest_width);
    }
    let d = (n % b) as u8;
    push_digit(out, d);
    assert(out@ =~= old(out)@ + digits(n as nat, base as nat, width as nat));
}

/// Appends a signed number in decimal.
pub fn push_signed(out: &mut String, n: i64)
    ensures
        final(out)@ == old(out)@ + signed_decimal(n as int),
{
    if n < 0 {
        out.append("-");
        proof {
            reveal_strlit("-");
        }
        assert("-"@ =~= seq!['-']);
        let magnitude: u128 = (-(n as i128)) as u128;
        push_number(out, magnitude, 10, 1);
        assert(out@ =~= old(out)@ + signed_decimal(n as int));
    } else {
        push_number(out, n as u128, 10, 1);
    }
}

/// Cuts `s` down to its first `max` characters where it is longer.
pub fn truncate_string(s: &mut String, max: usize)
    ensures
        final(s)@ == truncated(old(s)@, max as nat),
{
    let n = s.as_str().unicode_len();
    if n > max {
        let head = String::from_str(s.as_str().substring_char(0, max));
        *s = head;
    }
}

/// Cuts an optional string down to its first `max` characters.
pub fn truncate_optional(s: &mut Option<String>, max: usize)
    ensures
        final(s).deep_view() == truncated_option(old(s).deep_view(), max as nat),
{
    match s {
        Some(text) => {
            truncate_string(text, max);
        },
        None => {},
    }
}

/// Whether two strings hold the same characters.
pub fn same_text(a: &str, b: &str) -> (same: bool)
    ensures
        same == (a@ == b@),
{
    let x = String::from_str(a);
    let y = String::from_str(b);
    x == y
}

/// Whether `s` begins with `prefix`.
pub fn starts_with(s: &str, prefix: &str) -> (found: bool)
    ensures
        found == prefix@.is_prefix_of(s@),
{
    let n = prefix.unicode_len();
    if s.unicode_len() < n {
        false
    } else {
        let head = s.substring_char(0, n);
        let found = same_text(head, prefix);
        proof {
            if found {
                assert(s@.subrange(0, n as int) =~= prefix@);
            }
        }
        found
    }
}

} // verus!
