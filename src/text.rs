//! Decimal text of integers.
use vstd::prelude::*;

verus! {

/// The character of decimal digit `d`.
pub open spec fn digit_char(d: nat) -> char {
    (d + 48) as char
}

/// The decimal digits of `n`, most significant first, without leading zeros.
pub open spec fn digits(n: nat) -> Seq<char>
    decreases n,
{
    if n < 10 {
        seq![digit_char(n)]
    } else {
        digits(n / 10).push(digit_char(n % 10))
    }
}

/// The decimal text of `v`: its digits, after a `-` when it is negative.
pub open spec fn decimal(v: int) -> Seq<char> {
    if v < 0 {
        seq!['-'] + digits((-v) as nat)
    } else {
        digits(v as nat)
    }
}

/// Relies on `ToString` through `Display` for `i32`: the decimal digits of
/// the value without leading zeros, after a `-` when it is negative.
#[verifier::external_body]
pub(crate) fn int_text(v: i32) -> (r: String)
    ensures
        r@ == decimal(v as int),
{
    v.to_string()
}

} // verus!
