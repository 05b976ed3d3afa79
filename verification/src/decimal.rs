//! Numbers written in decimal.

use vstd::prelude::*;

verus! {

/// The digit character for `d < 10`.
pub open spec fn digit_char(d: int) -> char {
    (48 + d) as char
}

/// The decimal digits of `n`, most significant first, without leading zeros.
pub open spec fn decimal_digits(n: nat) -> Seq<char>
    decreases n,
{
    if n < 10 {
        seq![digit_char(n as int)]
    } else {
        decimal_digits(n / 10).push(digit_char((n % 10) as int))
    }
}

/// `n` written in decimal, with a leading `-` when negative.
pub open spec fn decimal_text(n: int) -> Seq<char> {
    if n < 0 {
        seq!['-'] + decimal_digits((-n) as nat)
    } else {
        decimal_digits(n as nat)
    }
}

/// The number that a string of decimal digits denotes.
pub open spec fn digits_value(digits: Seq<char>) -> int
    decreases digits.len(),
{
    if digits.len() == 0 {
        0
    } else {
        digits_value(digits.drop_last()) * 10 + (digits.last() as int - 48)
    }
}

pub proof fn lemma_decimal_digits_value(n: nat)
    ensures
        decimal_digits(n).len() >= 1,
        digits_value(decimal_digits(n)) == n,
        forall|i: int|
            0 <= i < decimal_digits(n).len() ==> '0' <= #[trigger] decimal_digits(n)[i] <= '9',
    decreases n,
{
    if n < 10 {
        assert(decimal_digits(n).drop_last() =~= Seq::<char>::empty());
        assert(digit_char(n as int) as int == 48 + n);
        assert(digits_value(decimal_digits(n).drop_last()) == 0);
    } else {
        lemma_decimal_digits_value(n / 10);
        let d = decimal_digits(n);
        assert(d.drop_last() =~= decimal_digits(n / 10));
        assert(digit_char((n % 10) as int) as int == 48 + n % 10);
        assert(n == (n / 10) * 10 + n % 10) by (nonlinear_arith);
        assert(d.last() == digit_char((n % 10) as int));
        assert(digits_value(d) == digits_value(decimal_digits(n / 10)) * 10 + (n % 10));
    }
}

/// Different numbers are written differently in decimal.
pub proof fn lemma_decimal_text_injective(a: int, b: int)
    requires
        decimal_text(a) == decimal_text(b),
    ensures
        a == b,
{
    let ta = decimal_text(a);
    if a < 0 {
        lemma_decimal_digits_value((-a) as nat);
    } else {
        lemma_decimal_digits_value(a as nat);
    }
    if b < 0 {
        lemma_decimal_digits_value((-b) as nat);
    } else {
        lemma_decimal_digits_value(b as nat);
    }
    if a < 0 && b < 0 {
        assert(decimal_digits((-a) as nat) =~= ta.subrange(1, ta.len() as int));
        assert(decimal_digits((-b) as nat) =~= ta.subrange(1, ta.len() as int));
    } else if a < 0 {
        assert(ta[0] == '-');
        assert('0' <= decimal_digits(b as nat)[0]);
    } else if b < 0 {
        assert(ta[0] == '-');
        assert('0' <= decimal_digits(a as nat)[0]);
    }
}

} // verus!
