//! What holds of numbers: their order, their arithmetic, and how they are written.

use vstd::prelude::*;

use crate::fixed::{
    at_least, clamped, decimal, gap, larger, lt, parsed, product, shown, smaller, sum, Fixed,
};
use crate::number::{digits, parsed_upto};

verus! {

/// Finite numbers are ordered as they are; the infinities lie beyond them; and what
/// is no number is neither below nor above anything.
pub proof fn law_order_of_numbers(m: i128, n: i128, a: Fixed)
    ensures
        lt(Fixed::Nanos(m), Fixed::Nanos(n)) == (m < n),
        lt(Fixed::NegInfinity, Fixed::Nanos(n)) && lt(Fixed::Nanos(n), Fixed::PosInfinity),
        lt(Fixed::NegInfinity, Fixed::PosInfinity),
        !lt(Fixed::Nanos(n), Fixed::NegInfinity) && !lt(Fixed::PosInfinity, Fixed::Nanos(n)),
        !lt(a, a),
        !lt(a, Fixed::NaN) && !lt(Fixed::NaN, a),
{
}

/// One number reaches another where it is not below it, if both are numbers.
pub proof fn law_reaching(a: Fixed, b: Fixed)
    ensures
        a !is NaN && b !is NaN ==> at_least(a, b) == !lt(a, b),
        a is NaN || b is NaN ==> !at_least(a, b),
{
}

/// The sum of finite numbers is exact, and infinite where there is no room for it.
/// An infinity swallows what is finite; opposite ones leave no number.
pub proof fn law_sums(m: i128, n: i128, a: Fixed, b: Fixed)
    ensures
        i128::MIN <= m + n <= i128::MAX ==> sum(Fixed::Nanos(m), Fixed::Nanos(n)) == Fixed::Nanos(
            (m + n) as i128,
        ),
        m + n > i128::MAX ==> sum(Fixed::Nanos(m), Fixed::Nanos(n)) is PosInfinity,
        m + n < i128::MIN ==> sum(Fixed::Nanos(m), Fixed::Nanos(n)) is NegInfinity,
        sum(a, b) == sum(b, a),
        sum(a, Fixed::NaN) is NaN,
        sum(Fixed::Nanos(m), Fixed::PosInfinity) is PosInfinity,
        sum(Fixed::Nanos(m), Fixed::NegInfinity) is NegInfinity,
        sum(Fixed::PosInfinity, Fixed::PosInfinity) is PosInfinity,
        sum(Fixed::NegInfinity, Fixed::NegInfinity) is NegInfinity,
        sum(Fixed::PosInfinity, Fixed::NegInfinity) is NaN,
{
}

/// Taking a number away and adding it again changes nothing, where there is room.
pub proof fn law_differences(m: i128, n: i128)
    ensures
        gap(m, n) is Nanos ==> sum(gap(m, n), Fixed::Nanos(n)) == Fixed::Nanos(m),
        gap(m, n) is PosInfinity <==> m - n > i128::MAX,
        gap(m, n) is NegInfinity <==> m - n < i128::MIN,
        gap(m, n) !is NaN,
{
}

/// The larger and the smaller of two numbers: one of them, and none of the two lies
/// beyond it. What is no number gives way.
pub proof fn law_larger_and_smaller(a: Fixed, b: Fixed)
    requires
        a !is NaN,
    ensures
        larger(a, b) == a || larger(a, b) == b,
        smaller(a, b) == a || smaller(a, b) == b,
        !lt(larger(a, b), a) && !lt(larger(a, b), b),
        !lt(a, smaller(a, b)) && !lt(b, smaller(a, b)),
        larger(a, Fixed::NaN) == a && larger(Fixed::NaN, a) == a,
        smaller(a, Fixed::NaN) == a && smaller(Fixed::NaN, a) == a,
{
}

/// A number held between two others: itself where it lies between them, else the
/// one it lies beyond.
pub proof fn law_holding_between(x: Fixed, low: Fixed, high: Fixed)
    requires
        low !is NaN,
        high !is NaN,
        !lt(high, low),
    ensures
        x is NaN ==> clamped(x, low, high) is NaN,
        x !is NaN ==> !lt(clamped(x, low, high), low) && !lt(high, clamped(x, low, high)),
        !lt(x, low) && !lt(high, x) ==> clamped(x, low, high) == x,
        lt(x, low) ==> clamped(x, low, high) == low,
        lt(high, x) ==> clamped(x, low, high) == high,
{
}

/// A product in billionths, cut off towards zero.
pub proof fn law_products(m: i128, n: i128)
    ensures
        product(m, n) matches Fixed::Nanos(p) ==> {
            &&& m * n >= 0 ==> p * 1_000_000_000 <= m * n < (p + 1) * 1_000_000_000
            &&& m * n < 0 ==> (p - 1) * 1_000_000_000 < m * n <= p * 1_000_000_000
        },
        product(m, n) is PosInfinity ==> m * n > i128::MAX,
        product(m, n) is NegInfinity ==> m * n < i128::MIN,
        product(m, n) !is NaN,
        product(m, n) == product(n, m),
        product(m, 1_000_000_000) is Nanos ==> product(m, 1_000_000_000) == Fixed::Nanos(m),
{
    assert(m * n == n * m) by (nonlinear_arith);
    let p = m * n;
    if p >= 0 {
        assert(p / 1_000_000_000 * 1_000_000_000 <= p);
    } else {
        assert((-p) / 1_000_000_000 * 1_000_000_000 <= -p);
    }
    let q = m * 1_000_000_000;
    assert(q >= 0 ==> q / 1_000_000_000 == m);
    assert(q < 0 ==> (-q) / 1_000_000_000 == -m);
}

/// The number with the opposite sign.
pub open spec fn opposite(a: Fixed) -> Fixed {
    match a {
        Fixed::Nanos(n) => Fixed::Nanos((-n) as i128),
        Fixed::PosInfinity => Fixed::NegInfinity,
        Fixed::NegInfinity => Fixed::PosInfinity,
        Fixed::NaN => Fixed::NaN,
    }
}

/// A plus sign means nothing to a number; a minus sign turns it round.
pub proof fn law_signs_of_a_number(t: Seq<char>)
    requires
        t.len() > 0,
        t[0] != '+',
        t[0] != '-',
    ensures
        parsed("+"@ + t) == parsed(t),
        parsed(t) is None ==> parsed("-"@ + t) is None,
        parsed(t) is Some ==> parsed("-"@ + t) == Some(opposite(parsed(t)->0)),
{
    reveal_strlit("+");
    reveal_strlit("-");
    assert(("+"@ + t).drop_first() =~= t);
    assert(("-"@ + t).drop_first() =~= t);
}

/// The names of what is no finite number are read in any case.
pub proof fn law_named_numbers(t: Seq<char>)
    requires
        t.len() > 0,
        t[0] != '+',
        t[0] != '-',
    ensures
        crate::text::lowered(t) == "inf"@ || crate::text::lowered(t) == "infinity"@ ==> parsed(t)
            == Some(Fixed::PosInfinity),
        crate::text::lowered(t) == "nan"@ ==> parsed(t) == Some(Fixed::NaN),
{
    reveal_strlit("inf");
    reveal_strlit("infinity");
    reveal_strlit("nan");
    assert("inf"@[0] == 'i' && "infinity"@[0] == 'i' && "nan"@[0] == 'n');
}

/// A number is shown with no decimals where it is whole, and else in decimal; and a
/// negative one is its opposite with a sign.
pub proof fn law_numbers_as_shown(n: i128, k: int)
    ensures
        n == k * 1_000_000_000 && k >= 0 ==> shown(Fixed::Nanos(n)) == digits(k as nat),
        n == k * 1_000_000_000 && k < 0 ==> shown(Fixed::Nanos(n)) == "-"@ + digits((-k) as nat),
        n % 1_000_000_000 != 0 ==> shown(Fixed::Nanos(n)) == decimal(n as int),
        n > 0 ==> decimal(-(n as int)) == "-"@ + decimal(n as int),
{
    reveal_strlit("-");
    assert("-"@ =~= seq!['-']);
    if n == k * 1_000_000_000 {
        assert(n % 1_000_000_000 == 0);
        assert(n as int / 1_000_000_000 == k);
    }
}

/// A whole number within a bound is read back as itself; one beyond it is not read.
pub proof fn law_bounded_numbers(n: nat, max: nat)
    ensures
        n <= max ==> parsed_upto(digits(n), max) == Some(n),
        n > max ==> parsed_upto(digits(n), max) is None,
{
    crate::number::lemma_digits(n);
    assert(crate::number::is_digit(digits(n)[0]));
}

} // verus!
