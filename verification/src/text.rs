//! Numbers as text.

use vstd::prelude::*;

verus! {

/// A digit as text.
pub open spec fn digit(d: nat) -> char {
    if d < 10 {
        ('0' as nat + d) as char
    } else {
        ('a' as nat + d - 10) as char
    }
}

/// A number as text, in the given base.
pub open spec fn digits(n: nat, base: nat) -> Seq<char>
    decreases n,
    when base >= 2
{
    if n < base {
        seq![digit(n)]
    } else {
        proof {
            assert(n / base < n) by (nonlinear_arith)
                requires
                    n >= base,
                    base >= 2,
            ;
        }
        digits(n / base, base).push(digit(n % base))
    }
}

/// Calls `std::fmt` on a `usize` by `format!`, which writes it in decimal.
#[verifier::external_body]
pub(crate) fn decimal(n: usize) -> (text: String)
    ensures
        text@ == digits(n as nat, 10),
{
    format!("{}", n)
}

/// Calls `std::fmt` on a `u32` by `format!`, which writes it in hexadecimal
/// with lower-case digits behind `0x`.
#[verifier::external_body]
pub(crate) fn hexadecimal(n: u32) -> (text: String)
    ensures
        text@ == seq!['0', 'x'] + digits(n as nat, 16),
{
    format!("{:#x}", n)
}

/// The number that a digit stands for.
pub open spec fn digit_value(c: char) -> int {
    if '0' <= c && '9' >= c {
        c as int - '0' as int
    } else {
        c as int - 'a' as int + 10
    }
}

/// The number that a text stands for, in the given base.
pub open spec fn number(text: Seq<char>, base: int) -> int
    decreases text.len(),
{
    if text.len() == 0 {
        0
    } else {
        number(text.drop_last(), base) * base + digit_value(text.last())
    }
}

/// A number as text reads back as the number, and has no zero in front but for
/// zero itself.
pub proof fn law_number_reads_back(n: nat, base: nat)
    requires
        2 <= base <= 16,
    ensures
        number(digits(n, base), base as int) == n,
        digits(n, base).len() >= 1,
        n > 0 ==> digits(n, base)[0] != '0',
    decreases n,
{
    if n < base {
        assert(digits(n, base).drop_last() =~= Seq::<char>::empty());
        assert(number(Seq::<char>::empty(), base as int) == 0);
        assert(digits(n, base).last() == digit(n));
    } else {
        assert(0 < n / base < n && n == n / base * base + n % base && n % base < base)
            by (nonlinear_arith)
            requires
                n >= base,
                base >= 2,
        ;
        law_number_reads_back(n / base, base);
        assert(digits(n, base).drop_last() =~= digits(n / base, base));
        assert(digits(n, base).last() == digit(n % base));
        assert(digits(n, base)[0] == digits(n / base, base)[0]);
    }
}

} // verus!
