//! Decimal rendering of numbers.

use vstd::prelude::*;
use vstd::string::*;

verus! {

/// The character of a decimal digit.
pub open spec fn digit_char(d: nat) -> char {
    if d == 0 { '0' }
    else if d == 1 { '1' }
    else if d == 2 { '2' }
    else if d == 3 { '3' }
    else if d == 4 { '4' }
    else if d == 5 { '5' }
    else if d == 6 { '6' }
    else if d == 7 { '7' }
    else if d == 8 { '8' }
    else { '9' }
}

/// The decimal digits of `n`, most significant first, at least `width` of
/// them, padded with leading zeros.
pub open spec fn decimal_padded(n: nat, width: nat) -> Seq<char>
    decreases width, n,
{
    if n < 10 && width <= 1 {
        seq![digit_char(n)]
    } else {
        decimal_padded(n / 10, if width > 0 { (width - 1) as nat } else { 0 }).push(
            digit_char(n % 10),
        )
    }
}

/// The decimal digits of `n`, most significant first, without leading zeros.
pub open spec fn decimal(n: nat) -> Seq<char> {
    decimal_padded(n, 1)
}

fn digit_str(d: u64) -> (r: &'static str)
    requires
        d < 10,
    ensures
        r@ == seq![digit_char(d as nat)],
{
    proof {
        reveal_strlit("0");
        reveal_strlit("1");
        reveal_strlit("2");
        reveal_strlit("3");
        reveal_strlit("4");
        reveal_strlit("5");
        reveal_strlit("6");
        reveal_strlit("7");
        reveal_strlit("8");
        reveal_strlit("9");
    }
    if d == 0 { "0" }
    else if d == 1 { "1" }
    else if d == 2 { "2" }
    else if d == 3 { "3" }
    else if d == 4 { "4" }
    else if d == 5 { "5" }
    else if d == 6 { "6" }
    else if d == 7 { "7" }
    else if d == 8 { "8" }
    else { "9" }
}

/// Appends the decimal digits of `n` to `s`, padded with zeros to at least
/// `width` digits.
pub fn push_decimal(s: &mut String, n: u64, width: u64)
    ensures
        final(s)@ == old(s)@ + decimal_padded(n as nat, width as nat),
    decreases width, n,
{
    if n < 10 && width <= 1 {
        s.append(digit_str(n));
    } else {
        let w: u64 = if width > 0 { width - 1 } else { 0 };
        push_decimal(s, n / 10, w);
        s.append(digit_str(n % 10));
        proof {
            assert(decimal_padded(n as nat, width as nat) == decimal_padded(
                (n / 10) as nat,
                w as nat,
            ).push(digit_char((n % 10) as nat)));
        }
    }
}

/// `prefix` followed by the decimal digits of `n`.
pub fn prefixed_decimal(prefix: &str, n: u64) -> (r: String)
    ensures
        r@ == prefix@ + decimal(n as nat),
{
    let mut s = String::from_str(prefix);
    push_decimal(&mut s, n, 1);
    s
}

} // verus!
