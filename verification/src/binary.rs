//! Numbers as binary floating point holds them: 53 bits and a power of two.
//!
//! Lengths, rates and fractions are worked out and printed in that form, so what
//! is shown of `1.15` to one decimal place is what is shown of the number next to
//! it that 53 bits hold, which is a little less.

use vstd::arithmetic::power2::pow2;
use vstd::prelude::*;

use crate::fixed::{half_even, round_even};

verus! {

/// Below this, 53 bits are not all used.
pub const HALF: u128 = 0x10_0000_0000_0000;

/// 53 bits hold no more than this.
pub const TOP: u128 = 0x20_0000_0000_0000;

/// What is held of a hundredth, with a unit of `2^-59`.
pub const HUNDREDTH: u128 = 5_764_607_523_034_235;

/// The number `m · 2^e`.
pub struct Held {
    pub m: nat,
    pub e: int,
}

/// What is held of `a / b · 2^e`, where that is below [`TOP`]` · 2^e`: as many bits
/// as there are, and the rest rounded, half to even.
pub open spec fn grown(a: nat, b: nat, e: int) -> Held
    decreases TOP * b - a,
{
    if 0 < a < HALF * b {
        grown(2 * a, b, e - 1)
    } else {
        Held { m: half_even(a, b), e }
    }
}

/// What is held of `a / b · 2^e`: the number of 53 bits next to it.
pub open spec fn closest(a: nat, b: nat, e: int) -> Held
    decreases a - b,
{
    if 0 < b && TOP * b <= a {
        closest(a, 2 * b, e + 1)
    } else {
        grown(a, b, e)
    }
}

/// What is held of a number of billionths.
pub open spec fn of_nanos(n: nat) -> Held {
    closest(n, 1_000_000_000, 0)
}

impl Held {
    /// What is held of a number divided by `t`.
    pub open spec fn divided(self, t: nat) -> Held {
        closest(self.m, t, self.e)
    }

    /// What is held of the quotient of two numbers.
    pub open spec fn over(self, other: Held) -> Held {
        closest(self.m, other.m, self.e - other.e)
    }

    /// What is held of a number `t` times.
    pub open spec fn times(self, t: nat) -> Held {
        closest(self.m * t, 1, self.e)
    }

    /// The nearest whole number, half upwards.
    pub open spec fn whole(self) -> nat {
        if self.e >= 0 {
            self.m * pow2(self.e as nat)
        } else {
            ((2 * self.m + pow2((-self.e) as nat)) / (2 * pow2((-self.e) as nat))) as nat
        }
    }

    /// How many parts, of `t` to the whole, the number is; half to even.
    pub open spec fn parts(self, t: nat) -> nat {
        if self.e >= 0 {
            self.m * t * pow2(self.e as nat)
        } else {
            half_even(self.m * t, pow2((-self.e) as nat))
        }
    }

    /// Whether the number is less than a hundredth from a whole one.
    pub open spec fn is_near_whole(self) -> bool {
        self.e >= 0 || {
            let unit = pow2((-self.e) as nat);
            let near = self.whole() * unit;
            let off = if self.m >= near {
                self.m - near
            } else {
                near - self.m
            };
            off * 0x800_0000_0000_0000 < HUNDREDTH * unit
        }
    }
}

/// The number `m · 2^e`.
#[derive(Debug, Clone, Copy)]
pub struct Binary {
    pub m: u128,
    pub e: i64,
}

impl View for Binary {
    type V = Held;

    open spec fn view(&self) -> Held {
        Held { m: self.m as nat, e: self.e as int }
    }
}

/// Powers of two that are too large to be written out by hand.
proof fn lemma_powers()
    ensures
        pow2(0) == 1,
        pow2(11) == 0x800,
        pow2(59) == 0x800_0000_0000_0000,
        pow2(60) == 0x1000_0000_0000_0000,
        pow2(61) == 0x2000_0000_0000_0000,
        pow2(76) == 0x1000_0000_0000_0000_0000,
        pow2(126) == 0x4000_0000_0000_0000_0000_0000_0000_0000,
{
    vstd::arithmetic::power2::lemma2_to64();
    vstd::arithmetic::power2::lemma2_to64_rest();
    vstd::arithmetic::power2::lemma_pow2_adds(60, 16);
    vstd::arithmetic::power2::lemma_pow2_adds(63, 63);
}

/// What a power of two is below, its exponent is below too.
proof fn lemma_exponent(k: nat, most: nat)
    requires
        pow2(k) < pow2(most),
    ensures
        k < most,
{
    if k > most {
        vstd::arithmetic::power2::lemma_pow2_strictly_increases(most, k);
    }
}

/// A power of two grows with its exponent.
pub proof fn lemma_power_grows(k: nat, l: nat)
    requires
        k <= l,
    ensures
        pow2(k) <= pow2(l),
{
    if k < l {
        vstd::arithmetic::power2::lemma_pow2_strictly_increases(k, l);
    }
}

/// A number that is at least `HALF` and below `TOP` is rounded to one that is at
/// least `HALF` and at most `TOP`.
proof fn lemma_rounds_within(a: nat, b: nat)
    requires
        0 < b,
        HALF * b <= a < TOP * b,
    ensures
        HALF <= half_even(a, b) <= TOP,
{
    assert(HALF <= a / b < TOP) by (nonlinear_arith)
        requires
            0 < b,
            HALF * b <= a < TOP * b,
    ;
}

proof fn lemma_more_powers()
    ensures
        pow2(45) == 0x2000_0000_0000,
        pow2(100) == 0x10_0000_0000_0000_0000_0000_0000,
{
    vstd::arithmetic::power2::lemma2_to64();
    vstd::arithmetic::power2::lemma2_to64_rest();
    vstd::arithmetic::power2::lemma_pow2_adds(60, 40);
}

/// A power of two that 128 bits hold.
fn power(k: u64) -> (r: u128)
    requires
        k <= 126,
    ensures
        r == pow2(k as nat),
{
    let mut r: u128 = 1;
    let mut i: u64 = 0;
    proof {
        lemma_powers();
    }
    while i < k
        invariant
            i <= k <= 126,
            r == pow2(i as nat),
            pow2(126) == 0x4000_0000_0000_0000_0000_0000_0000_0000,
        decreases k - i,
    {
        proof {
            lemma_power_grows(i as nat + 1, 126);
            vstd::arithmetic::power2::lemma_pow2_unfold(i as nat + 1);
        }
        r = 2 * r;
        i = i + 1;
    }
    r
}

impl Binary {
    /// The number of 53 bits next to `a / b · 2^e`.
    pub fn nearest(a: u128, b: u128, e: i64) -> (r: Binary)
        requires
            a <= 0x8000_0000_0000_0000_0000_0000_0000_0000,
            0 < b <= 0x40_0000_0000_0000_0000,
            -1000 <= e <= 1000,
        ensures
            r@ == closest(a as nat, b as nat, e as int),
            r.m <= TOP,
            a > 0 ==> r.m >= HALF,
            e - 126 <= r.e <= e + 76,
            a < TOP * b ==> r.e <= e,
            r.e > e ==> TOP * b * pow2((r.e - e - 1) as nat) <= a,
    {
        let mut x: u128 = a;
        let mut y: u128 = b;
        let mut f: i64 = e;
        proof {
            lemma_powers();
            assert(b * pow2(0) == b) by (nonlinear_arith)
                requires
                    pow2(0) == 1,
            ;
        }
        while x / y >= TOP
            invariant
                x == a <= 0x8000_0000_0000_0000_0000_0000_0000_0000,
                0 < b <= 0x40_0000_0000_0000_0000,
                0 < y,
                b <= y,
                -1000 <= e <= 1000,
                e <= f <= e + 76,
                f == e ==> y == b,
                y == b * pow2((f - e) as nat),
                f > e ==> TOP * b * pow2((f - e - 1) as nat) <= a,
                a < TOP * b ==> f == e,
                f > e ==> TOP * y <= 2 * a,
                pow2(76) == 0x1000_0000_0000_0000_0000,
                closest(a as nat, b as nat, e as int) == closest(x as nat, y as nat, f as int),
            decreases a - y,
        {
            proof {
                assert(TOP * y <= x) by (nonlinear_arith)
                    requires
                        x / y >= TOP,
                        0 < y,
                ;
                assert(y < x) by (nonlinear_arith)
                    requires
                        TOP * y <= x,
                        0 < y,
                        TOP == 0x20_0000_0000_0000,
                ;
                let k = (f - e) as nat;
                vstd::arithmetic::power2::lemma_pow2_unfold(k + 1);
                assert(2 * y == b * pow2(k + 1)) by (nonlinear_arith)
                    requires
                        y == b * pow2(k),
                        pow2(k + 1) == 2 * pow2(k),
                ;
                assert(TOP * b * pow2(k) <= a) by (nonlinear_arith)
                    requires
                        y == b * pow2(k),
                        TOP * y <= a,
                ;
                assert(pow2(k) < pow2(76)) by (nonlinear_arith)
                    requires
                        TOP * b * pow2(k) <= a,
                        0 < b,
                        TOP == 0x20_0000_0000_0000,
                        a <= 0x8000_0000_0000_0000_0000_0000_0000_0000,
                        pow2(76) == 0x1000_0000_0000_0000_0000,
                ;
                lemma_exponent(k, 76);
                assert(a < TOP * b ==> false) by (nonlinear_arith)
                    requires
                        TOP * y <= a,
                        b <= y,
                        TOP == 0x20_0000_0000_0000,
                ;
            }
            y = 2 * y;
            f = f + 1;
        }
        proof {
            assert(x < TOP * y) by (nonlinear_arith)
                requires
                    x / y < TOP,
                    0 < y,
            ;
        }
        let ghost start = f;
        let ghost first = x;
        proof {
            assert(x * pow2(0) == x) by (nonlinear_arith)
                requires
                    pow2(0) == 1,
            ;
        }
        while 0 < x && x < HALF * y
            invariant
                0 < y <= 0x1000_0000_0000_0000_0000,
                first == a,
                x < TOP * y,
                x <= 0x8000_0000_0000_0000_0000_0000_0000_0000,
                start > e ==> HALF * y <= x && f == start,
                start == e ==> y <= 0x40_0000_0000_0000_0000,
                x > 0 <==> a > 0,
                -1000 <= e <= 1000,
                e <= start <= e + 76,
                start - 126 <= f <= start,
                x == first * pow2((start - f) as nat),
                pow2(126) == 0x4000_0000_0000_0000_0000_0000_0000_0000,
                closest(a as nat, b as nat, e as int) == grown(x as nat, y as nat, f as int),
            decreases TOP * y - x,
        {
            proof {
                let k = (start - f) as nat;
                vstd::arithmetic::power2::lemma_pow2_unfold(k + 1);
                assert(2 * x == first * pow2(k + 1)) by (nonlinear_arith)
                    requires
                        x == first * pow2(k),
                        pow2(k + 1) == 2 * pow2(k),
                ;
                assert(pow2(k) < pow2(126)) by (nonlinear_arith)
                    requires
                        x == first * pow2(k),
                        0 < x < HALF * y,
                        HALF == 0x10_0000_0000_0000,
                        y <= 0x40_0000_0000_0000_0000,
                        pow2(126) == 0x4000_0000_0000_0000_0000_0000_0000_0000,
                ;
                lemma_exponent(k, 126);
            }
            x = 2 * x;
            f = f - 1;
        }
        let m: u128 = round_even(x, y);
        proof {
            if a > 0 {
                lemma_rounds_within(x as nat, y as nat);
            }
        }
        Binary { m, e: f }
    }

    /// What is held of a number of billionths.
    pub fn of_nanos(n: u128) -> (r: Binary)
        requires
            n <= 0x8000_0000_0000_0000_0000_0000_0000_0000,
        ensures
            r@ == of_nanos(n as nat),
            r.m <= TOP,
            n > 0 ==> r.m >= HALF,
            -126 <= r.e <= 45,
    {
        let r = Binary::nearest(n, 1_000_000_000, 0);
        proof {
            lemma_more_powers();
            if r.e > 45 {
                let p = pow2((r.e - 1) as nat);
                lemma_power_grows(45, (r.e - 1) as nat);
                assert(TOP * 1_000_000_000 * p > n) by (nonlinear_arith)
                    requires
                        p >= 0x2000_0000_0000,
                        TOP == 0x20_0000_0000_0000,
                        n <= 0x8000_0000_0000_0000_0000_0000_0000_0000,
                ;
            }
        }
        r
    }

    /// What is held of a number divided by `t`.
    pub fn divided(self, t: u128) -> (r: Binary)
        requires
            self.m <= TOP,
            1 < t <= 1_000_000_000,
            -500 <= self.e <= 500,
        ensures
            r@ == self@.divided(t as nat),
            r.m <= TOP,
            self.m > 0 ==> r.m >= HALF,
            self.e - 126 <= r.e <= self.e,
    {
        Binary::nearest(self.m, t, self.e)
    }

    /// What is held of the quotient of two numbers.
    pub fn over(self, other: Binary) -> (r: Binary)
        requires
            self.m <= TOP,
            0 < other.m <= TOP,
            -500 <= self.e <= 500,
            -500 <= other.e <= 500,
        ensures
            r@ == self@.over(other@),
            r.m <= TOP,
            self.m > 0 ==> r.m >= HALF,
            self.e - other.e - 126 <= r.e <= self.e - other.e + 76,
    {
        Binary::nearest(self.m, other.m, self.e - other.e)
    }

    /// What is held of a number `t` times.
    pub fn times(self, t: u128) -> (r: Binary)
        requires
            self.m <= TOP,
            t <= 1_000_000_000,
            -1000 <= self.e <= 1000,
        ensures
            r@ == self@.times(t as nat),
            r.m <= TOP,
            self.m > 0 && t > 0 ==> r.m >= HALF,
            self.e - 126 <= r.e <= self.e + 76,
    {
        assert(self.m * t <= TOP * 1_000_000_000) by (nonlinear_arith)
            requires
                self.m <= TOP,
                t <= 1_000_000_000,
        ;
        assert(self.m > 0 && t > 0 ==> self.m * t > 0) by (nonlinear_arith);
        Binary::nearest(self.m * t, 1, self.e)
    }

    /// The nearest whole number, half upwards, or `most` where it is more than that.
    pub fn whole_upto(self, most: u128) -> (r: u128)
        requires
            self.m == 0 || HALF <= self.m <= TOP,
            most <= 0x8000_0000_0000_0000,
            i32::MIN <= self.e <= i32::MAX,
        ensures
            r == (if self@.whole() > most {
                most as nat
            } else {
                self@.whole()
            }),
    {
        proof {
            lemma_powers();
        }
        if self.e >= 11 && self.m > 0 {
            proof {
                lemma_power_grows(11, self.e as nat);
                assert(self.m * pow2(self.e as nat) >= 0x8000_0000_0000_0000) by (nonlinear_arith)
                    requires
                        self.m >= 0x10_0000_0000_0000,
                        pow2(self.e as nat) >= 0x800,
                ;
            }
            return most;
        }
        let q: u128 = if self.m == 0 {
            proof {
                if self.e >= 0 {
                    assert(0 * pow2(self.e as nat) == 0);
                } else {
                    let p = pow2((-self.e) as nat);
                    lemma_power_grows(0, (-self.e) as nat);
                    assert(p / (2 * p) == 0) by (nonlinear_arith)
                        requires
                            p > 0,
                    ;
                }
            }
            0
        } else if self.e >= 0 {
            let p: u128 = power(self.e as u64);
            proof {
                lemma_power_grows(self.e as nat, 11);
                assert(self.m * p <= TOP * 0x800) by (nonlinear_arith)
                    requires
                        self.m <= TOP,
                        p <= 0x800,
                ;
            }
            self.m * p
        } else if self.e <= -60 {
            proof {
                let p = pow2((-self.e) as nat);
                lemma_power_grows(60, (-self.e) as nat);
                assert((2 * self.m as nat + p) / (2 * p) == 0) by (nonlinear_arith)
                    requires
                        p >= 0x1000_0000_0000_0000,
                        self.m <= 0x20_0000_0000_0000,
                ;
            }
            0
        } else {
            let p: u128 = power((-self.e) as u64);
            proof {
                lemma_power_grows((-self.e) as nat, 60);
                lemma_power_grows(0, (-self.e) as nat);
            }
            (2 * self.m + p) / (2 * p)
        };
        if q > most {
            most
        } else {
            q
        }
    }

    /// How many parts, of `t` to the whole, the number is; half to even.
    pub fn parts(self, t: u128) -> (r: u128)
        requires
            self.m <= TOP,
            t <= 1_000_000_000,
            i32::MIN <= self.e <= 45,
        ensures
            r == self@.parts(t as nat),
    {
        proof {
            lemma_powers();
            lemma_more_powers();
            assert(self.m * t <= TOP * 1_000_000_000) by (nonlinear_arith)
                requires
                    self.m <= TOP,
                    t <= 1_000_000_000,
            ;
        }
        let n: u128 = self.m * t;
        if self.e >= 0 {
            let p: u128 = power(self.e as u64);
            proof {
                lemma_power_grows(self.e as nat, 45);
                assert(n * p <= TOP * 1_000_000_000 * 0x2000_0000_0000) by (nonlinear_arith)
                    requires
                        n <= TOP * 1_000_000_000,
                        p <= 0x2000_0000_0000,
                ;
            }
            n * p
        } else if self.e <= -100 {
            proof {
                let p = pow2((-self.e) as nat);
                lemma_power_grows(100, (-self.e) as nat);
                assert(n as nat / p == 0 && n as nat % p == n) by (nonlinear_arith)
                    requires
                        0 <= n < p,
                ;
            }
            0
        } else {
            let p: u128 = power((-self.e) as u64);
            proof {
                lemma_power_grows((-self.e) as nat, 100);
                lemma_power_grows(0, (-self.e) as nat);
            }
            round_even(n, p)
        }
    }

    /// Whether the number is less than a hundredth from a whole one.
    pub fn is_near_whole(self) -> (r: bool)
        requires
            HALF <= self.m <= TOP,
            i32::MIN <= self.e <= i32::MAX,
        ensures
            r == self@.is_near_whole(),
    {
        proof {
            lemma_powers();
        }
        if self.e >= 0 {
            return true;
        }
        if self.e <= -61 {
            proof {
                let p = pow2((-self.e) as nat);
                lemma_power_grows(61, (-self.e) as nat);
                assert((2 * self.m as nat + p) / (2 * p) == 0) by (nonlinear_arith)
                    requires
                        p >= 0x2000_0000_0000_0000,
                        self.m <= 0x20_0000_0000_0000,
                ;
                assert(0 * p == 0);
                assert(self.m * 0x800_0000_0000_0000 < HUNDREDTH * p) by (nonlinear_arith)
                    requires
                        p >= 0x2000_0000_0000_0000,
                        self.m <= 0x20_0000_0000_0000,
                        HUNDREDTH == 5_764_607_523_034_235,
                ;
            }
            return true;
        }
        let p: u128 = power((-self.e) as u64);
        proof {
            lemma_power_grows((-self.e) as nat, 60);
            lemma_power_grows(0, (-self.e) as nat);
        }
        let q: u128 = (2 * self.m + p) / (2 * p);
        proof {
            let m = self.m;
            assert(q * p <= m + p && m <= q * p + p) by (nonlinear_arith)
                requires
                    q == (2 * m + p) / (2 * p),
                    p > 0,
            ;
        }
        let near: u128 = q * p;
        let off: u128 = if self.m >= near {
            self.m - near
        } else {
            near - self.m
        };
        off * 0x800_0000_0000_0000 < HUNDREDTH * p
    }
}

/// How far two numbers are apart.
pub open spec fn distance(a: nat, b: nat) -> nat {
    if a < b {
        (b - a) as nat
    } else {
        (a - b) as nat
    }
}

/// Rounding is off by half at most.
proof fn lemma_rounds_to_nearest(n: nat, d: nat)
    requires
        0 < d,
    ensures
        2 * distance(half_even(n, d) * d, n) <= d,
{
    let q = n / d;
    let r = n % d;
    vstd::arithmetic::div_mod::lemma_fundamental_div_mod(n as int, d as int);
    assert(q * d == d * q && (q + 1) * d == q * d + d) by (nonlinear_arith);
    assert(0 <= r < d);
}

proof fn lemma_grown_is_nearest(a: nat, b: nat, e: int)
    requires
        0 < b,
        a < TOP * b,
    ensures
        ({
            let h = grown(a, b, e);
            &&& h.e <= e
            &&& a >= HALF * b ==> h.e == e
            &&& a > 0 ==> HALF <= h.m <= TOP
            &&& 2 * distance(h.m * b, a * pow2((e - h.e) as nat)) <= b
        }),
    decreases TOP * b - a,
{
    let h = grown(a, b, e);
    if 0 < a < HALF * b {
        lemma_grown_is_nearest(2 * a, b, e - 1);
        let k = (e - h.e) as nat;
        vstd::arithmetic::power2::lemma_pow2_unfold(k);
        assert(2 * a * pow2((k - 1) as nat) == a * pow2(k)) by (nonlinear_arith)
            requires
                pow2(k) == 2 * pow2((k - 1) as nat),
        ;
    } else {
        lemma_powers();
        lemma_rounds_to_nearest(a, b);
        assert(a * pow2(0) == a) by (nonlinear_arith)
            requires
                pow2(0) == 1,
        ;
        if a > 0 {
            lemma_rounds_within(a, b);
        }
    }
}

/// What is held of a number is off by half of its last bit at most, and all 53 bits
/// are used.
pub proof fn law_held_is_nearest(a: nat, b: nat, e: int)
    requires
        0 < a,
        0 < b,
    ensures
        HALF <= closest(a, b, e).m <= TOP,
        closest(a, b, e).e <= e ==> 2 * distance(
            closest(a, b, e).m * b,
            a * pow2((e - closest(a, b, e).e) as nat),
        ) <= b,
        closest(a, b, e).e >= e ==> 2 * distance(
            closest(a, b, e).m * (b * pow2((closest(a, b, e).e - e) as nat)),
            a,
        ) <= b * pow2((closest(a, b, e).e - e) as nat),
        HALF * b <= a ==> closest(a, b, e).e >= e,
    decreases a - b,
{
    let h = closest(a, b, e);
    lemma_powers();
    if TOP * b <= a {
        law_held_is_nearest(a, 2 * b, e + 1);
        let k = (h.e - e) as nat;
        vstd::arithmetic::power2::lemma_pow2_unfold(k);
        assert(2 * b * pow2((k - 1) as nat) == b * pow2(k)) by (nonlinear_arith)
            requires
                pow2(k) == 2 * pow2((k - 1) as nat),
        ;
    } else {
        lemma_grown_is_nearest(a, b, e);
        assert(b * pow2(0) == b && a * pow2(0) == a) by (nonlinear_arith)
            requires
                pow2(0) == 1,
        ;
    }
}

} // verus!
