//! What holds of numbers held by their bits: how they are ordered, bounded and negated.

use crate::scalar::{Scalar, Wide};
use vstd::prelude::*;

verus! {

/// A pattern stands for a number unless its exponent is full and its fraction is not nought.
pub proof fn only_full_exponents_are_no_numbers(x: Scalar, nan: bool, finite: bool)
    requires
        call_ensures(Scalar::is_nan, (x,), nan),
        call_ensures(Scalar::is_finite, (x,), finite),
    ensures
        nan <==> 0x7f80_0000 < x.bits < 0x8000_0000 || 0xff80_0000 < x.bits,
        finite <==> x.bits < 0x7f80_0000 || 0x8000_0000 <= x.bits < 0xff80_0000,
{
}

/// Positive numbers are ordered as their bits are, negative ones the other way about, and
/// every negative number is below every positive one. The two zeros are level, and what is no
/// number is below nothing and above nothing.
pub proof fn numbers_are_ordered(a: Scalar, b: Scalar, r: bool)
    requires
        call_ensures(Scalar::lt, (a, b), r),
    ensures
        a.bits <= 0x7f80_0000 && b.bits <= 0x7f80_0000 ==> r == (a.bits < b.bits),
        0x8000_0000 <= a.bits <= 0xff80_0000 && 0x8000_0000 <= b.bits <= 0xff80_0000 ==> r == (
        b.bits < a.bits),
        0x8000_0000 <= a.bits <= 0xff80_0000 && b.bits <= 0x7f80_0000 ==> r == (a.bits
            != 0x8000_0000 || b.bits != 0),
        a.bits <= 0x7f80_0000 && 0x8000_0000 <= b.bits ==> !r,
        0x7f80_0000 < a.bits < 0x8000_0000 || 0xff80_0000 < a.bits ==> !r,
        0x7f80_0000 < b.bits < 0x8000_0000 || 0xff80_0000 < b.bits ==> !r,
{
}

/// Of two numbers exactly one is below the other, or they are equal; at most is below or
/// equal; what is no number is not even equal to itself.
pub proof fn comparisons_agree(
    a: Scalar,
    b: Scalar,
    a_nan: bool,
    b_nan: bool,
    lt: bool,
    gt: bool,
    le: bool,
    eq: bool,
)
    requires
        call_ensures(Scalar::is_nan, (a,), a_nan),
        call_ensures(Scalar::is_nan, (b,), b_nan),
        call_ensures(Scalar::lt, (a, b), lt),
        call_ensures(Scalar::lt, (b, a), gt),
        call_ensures(Scalar::le, (a, b), le),
        call_ensures(Scalar::eq_number, (a, b), eq),
    ensures
        le <==> lt || eq,
        a_nan || b_nan ==> !lt && !gt && !eq,
        !a_nan && !b_nan ==> (lt || gt || eq) && !(lt && gt) && !(lt && eq) && !(gt && eq),
        !a_nan && a == b ==> eq,
{
}

/// A number is clamped to the nearest one between two bounds.
pub proof fn clamping_finds_the_nearest(
    x: Scalar,
    lo: Scalar,
    hi: Scalar,
    r: Scalar,
    low: bool,
    high: bool,
)
    requires
        lo.at_most(hi),
        call_ensures(Scalar::lt, (x, lo), low),
        call_ensures(Scalar::lt, (hi, x), high),
        call_ensures(Scalar::clamp, (x, lo, hi), r),
    ensures
        low ==> r == lo,
        high ==> r == hi,
        !low && !high ==> r == x,
{
}

/// The smaller and the larger of two numbers are the two numbers, in their order. What is no
/// number gives way.
pub proof fn the_smaller_and_the_larger(
    a: Scalar,
    b: Scalar,
    a_nan: bool,
    b_nan: bool,
    below: bool,
    above: bool,
    min: Scalar,
    max: Scalar,
)
    requires
        call_ensures(Scalar::is_nan, (a,), a_nan),
        call_ensures(Scalar::is_nan, (b,), b_nan),
        call_ensures(Scalar::lt, (a, b), below),
        call_ensures(Scalar::lt, (b, a), above),
        call_ensures(Scalar::min, (a, b), min),
        call_ensures(Scalar::max, (a, b), max),
    ensures
        below ==> min == a && max == b,
        above ==> min == b && max == a,
        a_nan ==> min == b && max == b,
        b_nan && !a_nan ==> min == a && max == a,
        !below && !above && !a_nan && !b_nan ==> min == a && max == a,
{
}

/// To negate is to change the sign bit and nothing else: it undoes itself and turns the order
/// about.
pub proof fn negation_turns_the_order_about(
    a: Scalar,
    b: Scalar,
    c: Scalar,
    d: Scalar,
    lt: bool,
    turned: bool,
)
    requires
        call_ensures(Scalar::negated, (a,), c),
        call_ensures(Scalar::negated, (b,), d),
        call_ensures(Scalar::lt, (a, b), lt),
        call_ensures(Scalar::lt, (d, c), turned),
    ensures
        a.bits < 0x8000_0000 ==> c.bits == a.bits + 0x8000_0000,
        a.bits >= 0x8000_0000 ==> c.bits == a.bits - 0x8000_0000,
        forall|e: Scalar| call_ensures(Scalar::negated, (c,), e) ==> e == a,
        lt == turned,
{
}

/// Numbers of double precision are ordered in the same way.
pub proof fn wide_numbers_are_ordered(a: Wide, b: Wide, r: bool)
    requires
        call_ensures(Wide::lt, (a, b), r),
    ensures
        a.bits <= 0x7ff0_0000_0000_0000 && b.bits <= 0x7ff0_0000_0000_0000 ==> r == (a.bits
            < b.bits),
        0x8000_0000_0000_0000 <= a.bits <= 0xfff0_0000_0000_0000 && 0x8000_0000_0000_0000 <= b.bits
            <= 0xfff0_0000_0000_0000 ==> r == (b.bits < a.bits),
        0x8000_0000_0000_0000 <= a.bits <= 0xfff0_0000_0000_0000 && b.bits
            <= 0x7ff0_0000_0000_0000 ==> r == (a.bits != 0x8000_0000_0000_0000 || b.bits != 0),
        a.bits <= 0x7ff0_0000_0000_0000 && 0x8000_0000_0000_0000 <= b.bits ==> !r,
        0x7ff0_0000_0000_0000 < a.bits < 0x8000_0000_0000_0000 || 0xfff0_0000_0000_0000 < a.bits
            ==> !r,
        0x7ff0_0000_0000_0000 < b.bits < 0x8000_0000_0000_0000 || 0xfff0_0000_0000_0000 < b.bits
            ==> !r,
{
}

/// A number of double precision is clamped to the nearest one between two bounds; where the
/// bounds contradict each other, the lower one is taken first.
pub proof fn wide_clamping_finds_the_nearest(
    x: Wide,
    lo: Wide,
    hi: Wide,
    r: Wide,
    low: bool,
    high: bool,
)
    requires
        call_ensures(Wide::lt, (x, lo), low),
        call_ensures(Wide::lt, (hi, x), high),
        call_ensures(Wide::clamp, (x, lo, hi), r),
    ensures
        low ==> r == lo,
        !low && high ==> r == hi,
        !low && !high ==> r == x,
{
}

} // verus!
