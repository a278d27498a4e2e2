//! Decimal and hexadecimal text of unsigned integers, as `{}` and `{:X}`
//! format them.

use vstd::prelude::*;
use crate::text::push_char;

verus! {

/// The digit for `d` in base 16, upper case (`0`-`9`, `A`-`F`).
pub open spec fn digit_char(d: nat) -> char {
    if d < 10 {
        ((d + 48) as u8) as char
    } else {
        ((d + 55) as u8) as char
    }
}

/// The digits of `n` in `base`, most significant first, without leading
/// zeros; `0` for zero.
pub open spec fn digits(n: nat, base: nat) -> Seq<char>
    recommends
        base >= 2,
    decreases n,
{
    if n < base || base < 2 {
        seq![digit_char(n % 16)]
    } else {
        proof {
            assert(n / base < n) by (nonlinear_arith)
                requires
                    n >= base,
                    base >= 2,
            ;
        }
        digits(n / base, base).push(digit_char(n % base))
    }
}

/// `n` in decimal, as `{}` formats it.
pub open spec fn decimal(n: nat) -> Seq<char> {
    digits(n, 10)
}

/// `n` in upper-case hexadecimal without prefix, as `{:X}` formats it.
pub open spec fn hex_upper(n: nat) -> Seq<char> {
    digits(n, 16)
}

/// The character of digit `d`.
fn digit_of(d: u64) -> (c: char)
    requires
        d < 16,
    ensures
        c == digit_char(d as nat),
{
    if d < 10 {
        ((d + 48) as u8) as char
    } else {
        ((d + 55) as u8) as char
    }
}

/// The digits of `n` in `base`.
fn digits_of(n: u64, base: u64) -> (r: String)
    requires
        2 <= base <= 16,
    ensures
        r@ == digits(n as nat, base as nat),
    decreases n,
{
    if n < base {
        let mut s = String::new();
        push_char(&mut s, digit_of(n));
        assert(n % 16 == n);
        assert(s@ =~= seq![digit_char(n as nat)]);
        s
    } else {
        assert(n / base < n) by (nonlinear_arith)
            requires
                n >= base,
                base >= 2,
        ;
        let mut s = digits_of(n / base, base);
        push_char(&mut s, digit_of(n % base));
        s
    }
}

/// `n` in decimal.
pub fn decimal_text(n: u64) -> (r: String)
    ensures
        r@ == decimal(n as nat),
{
    digits_of(n, 10)
}

/// `n` in upper-case hexadecimal.
pub fn hex_text(n: u64) -> (r: String)
    ensures
        r@ == hex_upper(n as nat),
{
    digits_of(n, 16)
}

} // verus!
