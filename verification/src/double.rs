//! Numbers of double precision, worked out in whole numbers.
//!
//! A number is `m * 2^e`, and `m` has 53 binary digits. Every operation gives
//! the number nearest to its exact result, the even one of two that are equally
//! near. None of the numbers here comes near the ends of the range of exponents.

use vstd::arithmetic::power2::{
    lemma2_to64, lemma2_to64_rest, lemma_pow2_adds, lemma_pow2_pos, lemma_pow2_strictly_increases,
    lemma_pow2_unfold, pow2,
};
use vstd::prelude::*;

use crate::text;

verus! {

/// The least number of 53 binary digits.
pub const LOW: u64 = 0x10_0000_0000_0000;

/// The least number of 54 binary digits.
pub const HIGH: u64 = 0x20_0000_0000_0000;

/// The number `m * 2^e`.
pub struct Num {
    pub m: int,
    pub e: int,
}

pub open spec fn zero() -> Num {
    Num { m: 0, e: 0 }
}

pub open spec fn one() -> Num {
    Num { m: LOW as int, e: -52 }
}

/// `x * 2^k`.
pub open spec fn shift(x: Num, k: int) -> Num {
    Num { m: x.m, e: x.e + k }
}

/// `n / d` as a whole number: the nearest one, and the even one of two that are
/// equally near.
pub open spec fn half_even(n: int, d: int) -> int {
    let low = n / d;
    let rest = n % d;
    if 2 * rest > d || (2 * rest == d && low % 2 == 1) {
        low + 1
    } else {
        low
    }
}

/// The number nearest to `n / d`: that is brought to 53 binary digits before
/// the point by doubling or halving, and rounded there.
pub open spec fn nearest(n: int, d: int) -> Num
    decreases
            (if d > 0 && n >= HIGH * d {
                n / d
            } else {
                0
            }),
            (if n < LOW * d {
                LOW * d - n
            } else {
                0
            }),
{
    if n <= 0 || d <= 0 {
        zero()
    } else if n >= HIGH * d {
        proof {
            assert(n / (2 * d) < n / d && n / (2 * d) >= 0) by (nonlinear_arith)
                requires
                    d > 0,
                    n >= 0x20_0000_0000_0000 * d,
            ;
            assert(n / d > 0) by (nonlinear_arith)
                requires
                    d > 0,
                    n >= 0x20_0000_0000_0000 * d,
            ;
        }
        shift(nearest(n, 2 * d), 1)
    } else if n < LOW * d {
        shift(nearest(2 * n, d), -1)
    } else {
        let m = half_even(n, d);
        if m >= HIGH {
            Num { m: LOW as int, e: 1 }
        } else {
            Num { m, e: 0 }
        }
    }
}

/// A whole number.
pub open spec fn of(n: int) -> Num {
    nearest(n, 1)
}

/// `x / y`, for a `y` other than zero.
pub open spec fn over(x: Num, y: Num) -> Num {
    if x.m == 0 {
        zero()
    } else {
        shift(nearest(x.m, y.m), x.e - y.e)
    }
}

/// `x * y`.
pub open spec fn times(x: Num, y: Num) -> Num {
    if x.m == 0 || y.m == 0 {
        zero()
    } else {
        shift(nearest(x.m * y.m, 1), x.e + y.e)
    }
}

/// Whether `x < y`: both have 53 digits, so the exponents are looked at first.
pub open spec fn less(x: Num, y: Num) -> bool {
    y.m != 0 && (x.m == 0 || x.e < y.e || (x.e == y.e && x.m < y.m))
}

/// Zero, or a number of 53 binary digits.
pub open spec fn is_normal(x: Num) -> bool {
    x == zero() || LOW <= x.m < HIGH
}

/// The whole part.
pub open spec fn whole(x: Num) -> int {
    if x.e >= 0 {
        x.m * pow2(x.e as nat)
    } else {
        x.m / pow2((-x.e) as nat) as int
    }
}

/// The nearest whole number, halves upwards.
pub open spec fn rounded(x: Num) -> int {
    if x.e >= 0 {
        x.m * pow2(x.e as nat)
    } else {
        (2 * x.m + pow2((-x.e) as nat)) / (2 * pow2((-x.e) as nat) as int)
    }
}

/// `x * scale` as a whole number: the nearest one, and the even one of two that
/// are equally near.
pub open spec fn scaled(x: Num, scale: int) -> int {
    if x.e >= 0 {
        x.m * pow2(x.e as nat) * scale
    } else {
        half_even(x.m * scale, pow2((-x.e) as nat) as int)
    }
}

/// A number with two digits after the point.
pub open spec fn two_places(x: Num) -> Seq<char> {
    let r = scaled(x, 100);
    text::decimal((r / 100) as nat) + seq![
        '.',
        text::digit((r / 10 % 10) as nat),
        text::digit((r % 10) as nat),
    ]
}

/// A number with one digit after the point.
pub open spec fn one_place(x: Num) -> Seq<char> {
    let r = scaled(x, 10);
    text::decimal((r / 10) as nat) + seq!['.', text::digit((r % 10) as nat)]
}

/// `num / den` of two whole numbers; 0 where there is nothing to divide by.
pub open spec fn share(num: int, den: int) -> Num {
    if den <= 0 {
        zero()
    } else {
        over(of(num), of(den))
    }
}

/// `num / den` in per cent.
pub open spec fn percentage(num: int, den: int) -> Num {
    times(share(num, den), of(100))
}

/// `count` over `days` in years of 365.25 days; `count` where there are none.
pub open spec fn per_year(count: int, days: int) -> Num {
    if days <= 0 {
        of(count)
    } else {
        over(of(count), over(of(days), nearest(1461, 4)))
    }
}

// ---------------------------------------------------------------------------
// Bounds
// ---------------------------------------------------------------------------

proof fn lemma_half_even(n: int, d: int)
    requires
        0 < d,
        0 <= n,
    ensures
        n / d <= half_even(n, d) <= n / d + 1,
        forall|k: int| #[trigger] (k * d) <= n ==> k <= half_even(n, d),
        forall|k: int| n <= #[trigger] (k * d) ==> half_even(n, d) <= k,
{
    let low = n / d;
    let rest = n % d;
    assert(n == low * d + rest && 0 <= rest < d) by (nonlinear_arith)
        requires
            d > 0,
            low == n / d,
            rest == n % d,
    ;
    assert(n < (low + 1) * d) by (nonlinear_arith)
        requires
            n == low * d + rest,
            rest < d,
    ;
    assert forall|k: int| #[trigger] (k * d) <= n implies k <= half_even(n, d) by {
        assert(k <= low) by (nonlinear_arith)
            requires
                k * d <= n,
                n < (low + 1) * d,
                d > 0,
        ;
    }
    assert forall|k: int| n <= #[trigger] (k * d) implies half_even(n, d) <= k by {
        if rest > 0 {
            assert(low + 1 <= k) by (nonlinear_arith)
                requires
                    n <= k * d,
                    n > low * d,
                    d > 0,
            ;
        } else {
            assert(low <= k) by (nonlinear_arith)
                requires
                    n <= k * d,
                    n == low * d,
                    d > 0,
            ;
        }
    }
}

/// What is nearest to a positive number has 53 binary digits.
pub proof fn lemma_nearest_normal(n: int, d: int)
    requires
        n > 0,
        d > 0,
    ensures
        LOW <= nearest(n, d).m < HIGH,
    decreases
            (if n >= HIGH * d {
                n / d
            } else {
                0
            }),
            (if n < LOW * d {
                LOW * d - n
            } else {
                0
            }),
{
    if n >= HIGH * d {
        assert(n / (2 * d) < n / d && n / (2 * d) >= 0) by (nonlinear_arith)
            requires
                d > 0,
                n >= 0x20_0000_0000_0000 * d,
        ;
        assert(n / d > 0) by (nonlinear_arith)
            requires
                d > 0,
                n >= 0x20_0000_0000_0000 * d,
        ;
        lemma_nearest_normal(n, 2 * d);
    } else if n < LOW * d {
        lemma_nearest_normal(2 * n, d);
    } else {
        lemma_half_even(n, d);
        assert(LOW as int * d <= n);
    }
}

/// The exponent of what is nearest to a number below `2^b`.
proof fn lemma_exponent_above(n: int, d: int, b: nat)
    requires
        n > 0,
        d > 0,
        b >= 53,
        n < pow2(b) * d,
    ensures
        nearest(n, d).e <= b - 52,
    decreases b,
{
    lemma2_to64_rest();
    if n >= HIGH * d {
        if b == 53 {
            assert(false);
        }
        lemma_pow2_unfold(b);
        assert(pow2((b - 1) as nat) * (2 * d) == pow2(b) * d) by (nonlinear_arith)
            requires
                pow2(b) == 2 * pow2((b - 1) as nat),
        ;
        lemma_exponent_above(n, 2 * d, (b - 1) as nat);
    } else if n < LOW * d {
        lemma2_to64();
        assert(n * pow2(0) == n) by (nonlinear_arith)
            requires
                pow2(0) == 1,
        ;
        lemma_exponent_below(n, d, 0);
    }
}

/// The exponent of what is nearest to a number below `2^(53 - c)`.
proof fn lemma_exponent_below(n: int, d: int, c: nat)
    requires
        n > 0,
        d > 0,
        n * pow2(c) < HIGH * d,
    ensures
        nearest(n, d).e <= 1 - c,
    decreases
            (if n < LOW * d {
                LOW * d - n
            } else {
                0
            }),
{
    lemma_pow2_pos(c);
    lemma2_to64();
    assert(n <= n * pow2(c)) by (nonlinear_arith)
        requires
            n > 0,
            pow2(c) >= 1,
    ;
    if n < LOW * d {
        if c > 0 {
            lemma_pow2_unfold(c);
            assert((2 * n) * pow2((c - 1) as nat) == n * pow2(c)) by (nonlinear_arith)
                requires
                    pow2(c) == 2 * pow2((c - 1) as nat),
            ;
            lemma_exponent_below(2 * n, d, (c - 1) as nat);
        } else {
            assert((2 * n) * pow2(0) == 2 * n) by (nonlinear_arith)
                requires
                    pow2(0) == 1,
            ;
            lemma_exponent_below(2 * n, d, 0);
        }
    } else if c > 0 {
        lemma_pow2_unfold(c);
        lemma_pow2_pos((c - 1) as nat);
        assert(n * pow2(c) >= 2 * n) by (nonlinear_arith)
            requires
                n > 0,
                pow2(c) >= 2,
        ;
        assert(false);
    }
}

/// The exponent of what is nearest to a number of at least `2^(52 - b)`.
proof fn lemma_exponent_least(n: int, d: int, b: nat)
    requires
        n > 0,
        d > 0,
        n * pow2(b) >= LOW * d,
    ensures
        nearest(n, d).e >= -b,
    decreases
            b,
            (if n >= HIGH * d {
                n / d
            } else {
                0
            }),
{
    lemma2_to64();
    if n >= HIGH * d {
        assert(n / (2 * d) < n / d && n / (2 * d) >= 0) by (nonlinear_arith)
            requires
                d > 0,
                n >= 0x20_0000_0000_0000 * d,
        ;
        assert(n / d > 0) by (nonlinear_arith)
            requires
                d > 0,
                n >= 0x20_0000_0000_0000 * d,
        ;
        assert(n * pow2(0) == n) by (nonlinear_arith)
            requires
                pow2(0) == 1,
        ;
        lemma_exponent_least(n, 2 * d, 0);
    } else if n < LOW * d {
        if b == 0 {
            assert(n * pow2(0) == n) by (nonlinear_arith)
                requires
                    pow2(0) == 1,
            ;
            assert(false);
        }
        lemma_pow2_unfold(b);
        assert((2 * n) * pow2((b - 1) as nat) == n * pow2(b)) by (nonlinear_arith)
            requires
                pow2(b) == 2 * pow2((b - 1) as nat),
        ;
        lemma_exponent_least(2 * n, d, (b - 1) as nat);
    }
}

pub proof fn shares_are_normal(num: int, den: int)
    ensures
        is_normal(share(num, den)),
{
    if num > 0 && den > 0 {
        lemma_nearest_normal(num, 1);
        lemma_nearest_normal(den, 1);
        lemma_nearest_normal(of(num).m, of(den).m);
    }
}

pub proof fn rates_are_normal(count: int, days: int)
    ensures
        is_normal(per_year(count, days)),
{
    if count > 0 {
        lemma_nearest_normal(count, 1);
        if days > 0 {
            lemma_nearest_normal(days, 1);
            lemma_nearest_normal(1461, 4);
            lemma_nearest_normal(of(days).m, nearest(1461, 4).m);
            lemma_nearest_normal(of(count).m, over(of(days), nearest(1461, 4)).m);
        }
    }
}

// ---------------------------------------------------------------------------
// Order
// ---------------------------------------------------------------------------

/// Of two numbers one is not less than the other.
pub proof fn order_is_total(x: Num, y: Num)
    ensures
        !less(x, y) || !less(y, x),
{
}

pub proof fn order_is_transitive(x: Num, y: Num, z: Num)
    requires
        is_normal(x),
        is_normal(y),
        is_normal(z),
        !less(x, y),
        !less(y, z),
    ensures
        !less(x, z),
{
}

proof fn lemma_half_even_ordered(a: int, b: int, c: int, d: int)
    requires
        0 <= a,
        0 < b,
        0 <= c,
        0 < d,
        a * d <= c * b,
    ensures
        half_even(a, b) <= half_even(c, d),
{
    let p = a / b;
    let q = c / d;
    let r = a % b;
    let t = c % d;
    assert(a == p * b + r && 0 <= r < b) by (nonlinear_arith)
        requires
            b > 0,
            p == a / b,
            r == a % b,
    ;
    assert(c == q * d + t && 0 <= t < d) by (nonlinear_arith)
        requires
            d > 0,
            q == c / d,
            t == c % d,
    ;
    assert(p <= q) by (nonlinear_arith)
        requires
            (p * b + r) * d <= (q * d + t) * b,
            0 <= r,
            t < d,
            b > 0,
            d > 0,
    ;
    if p == q {
        assert(r * d <= t * b) by (nonlinear_arith)
            requires
                (p * b + r) * d <= (q * d + t) * b,
                p == q,
        ;
        if 2 * r > b {
            assert(2 * t > d) by (nonlinear_arith)
                requires
                    2 * r > b,
                    r * d <= t * b,
                    b > 0,
                    d > 0,
            ;
        } else if 2 * r == b {
            assert(2 * t >= d) by (nonlinear_arith)
                requires
                    2 * r == b,
                    r * d <= t * b,
                    b > 0,
                    d > 0,
            ;
        }
    }
}

/// Where the number lies among the powers of two decides the exponent.
proof fn lemma_exponent_side(n: int, d: int)
    requires
        n > 0,
        d > 0,
    ensures
        n < LOW * d ==> nearest(n, d).e < 0 || nearest(n, d) == (Num { m: LOW as int, e: 0 }),
        n >= LOW * d ==> nearest(n, d).e >= 0,
        n < HIGH * d ==> nearest(n, d).e <= 0 || nearest(n, d) == (Num { m: LOW as int, e: 1 }),
        n >= HIGH * d ==> nearest(n, d).e >= 1,
    decreases
            (if n >= HIGH * d {
                n / d
            } else {
                0
            }),
            (if n < LOW * d {
                LOW * d - n
            } else {
                0
            }),
{
    if n >= HIGH * d {
        assert(n / (2 * d) < n / d && n / (2 * d) >= 0) by (nonlinear_arith)
            requires
                d > 0,
                n >= 0x20_0000_0000_0000 * d,
        ;
        assert(n / d > 0) by (nonlinear_arith)
            requires
                d > 0,
                n >= 0x20_0000_0000_0000 * d,
        ;
        lemma_exponent_side(n, 2 * d);
    } else if n < LOW * d {
        lemma_exponent_side(2 * n, d);
    }
}

/// Of two numbers, what is nearest to the larger is not less than what is
/// nearest to the other.
pub proof fn nearest_is_ordered(a: int, b: int, c: int, d: int)
    requires
        0 < a,
        0 < b,
        0 < c,
        0 < d,
        a * d <= c * b,
    ensures
        !less(nearest(c, d), nearest(a, b)),
    decreases
            (if a >= HIGH * b {
                a / b
            } else {
                0
            }),
            (if c < LOW * d {
                LOW * d - c
            } else {
                0
            }),
{
    lemma_nearest_normal(a, b);
    lemma_nearest_normal(c, d);
    lemma_exponent_side(a, b);
    lemma_exponent_side(c, d);
    if a >= HIGH * b {
        assert(c >= HIGH * d) by (nonlinear_arith)
            requires
                a >= HIGH * b,
                a * d <= c * b,
                b > 0,
                d > 0,
        ;
        assert(a * (2 * d) <= c * (2 * b)) by (nonlinear_arith)
            requires
                a * d <= c * b,
        ;
        assert(a / (2 * b) < a / b && a / (2 * b) >= 0) by (nonlinear_arith)
            requires
                b > 0,
                a >= 0x20_0000_0000_0000 * b,
        ;
        assert(a / b > 0) by (nonlinear_arith)
            requires
                b > 0,
                a >= 0x20_0000_0000_0000 * b,
        ;
        nearest_is_ordered(a, 2 * b, c, 2 * d);
    } else if c < LOW * d {
        assert(a < LOW * b) by (nonlinear_arith)
            requires
                c < LOW * d,
                a * d <= c * b,
                b > 0,
                d > 0,
        ;
        assert((2 * a) * d <= (2 * c) * b) by (nonlinear_arith)
            requires
                a * d <= c * b,
        ;
        nearest_is_ordered(2 * a, b, 2 * c, d);
    } else if a >= LOW * b && c < HIGH * d {
        lemma_half_even_ordered(a, b, c, d);
        lemma_half_even(a, b);
        lemma_half_even(c, d);
        assert(LOW as int * b <= a);
        assert(c <= HIGH as int * d);
        assert(a <= HIGH as int * b);
        assert(LOW as int * d <= c);
    }
}

/// Only the quotient matters.
proof fn lemma_nearest_doubled(n: int, d: int)
    requires
        n > 0,
        d > 0,
    ensures
        nearest(2 * n, 2 * d) == nearest(n, d),
        nearest(2 * n, d) == shift(nearest(n, d), 1),
    decreases
            (if n >= HIGH * d {
                n / d
            } else {
                0
            }),
            (if n < LOW * d {
                LOW * d - n
            } else {
                0
            }),
{
    if n >= HIGH * d {
        assert(n / (2 * d) < n / d && n / (2 * d) >= 0) by (nonlinear_arith)
            requires
                d > 0,
                n >= 0x20_0000_0000_0000 * d,
        ;
        assert(n / d > 0) by (nonlinear_arith)
            requires
                d > 0,
                n >= 0x20_0000_0000_0000 * d,
        ;
        lemma_nearest_doubled(n, 2 * d);
        assert(2 * (2 * d) == 4 * d);
        assert(nearest(2 * n, 2 * d) == shift(nearest(2 * n, 2 * (2 * d)), 1));
        assert(nearest(2 * n, d) == shift(nearest(2 * n, 2 * d), 1));
    } else if n < LOW * d {
        lemma_nearest_doubled(2 * n, d);
        assert(nearest(2 * n, 2 * d) == shift(nearest(2 * (2 * n), 2 * d), -1));
    } else {
        assert((2 * n) / (2 * d) == n / d && (2 * n) % (2 * d) == 2 * (n % d)) by (nonlinear_arith)
            requires
                d > 0,
                n > 0,
        ;
        assert(half_even(2 * n, 2 * d) == half_even(n, d));
        assert(nearest(2 * n, 2 * d) == nearest(n, d));
        assert(nearest(2 * n, d) == shift(nearest(2 * n, 2 * d), 1));
    }
}

/// The larger a number, the larger its quotient.
pub proof fn quotients_are_ordered(x: Num, z: Num, y: Num)
    requires
        is_normal(x),
        is_normal(z),
        LOW <= y.m < HIGH,
        !less(z, x),
    ensures
        !less(over(z, y), over(x, y)),
        is_normal(over(x, y)),
{
    if x.m > 0 {
        lemma_nearest_normal(x.m, y.m);
        lemma_nearest_normal(z.m, y.m);
        if x.e == z.e {
            assert(x.m * y.m <= z.m * y.m) by (nonlinear_arith)
                requires
                    x.m <= z.m,
                    y.m > 0,
            ;
            nearest_is_ordered(x.m, y.m, z.m, y.m);
        } else {
            assert(x.m * y.m <= (2 * z.m) * y.m) by (nonlinear_arith)
                requires
                    x.m <= 2 * z.m,
                    y.m > 0,
            ;
            nearest_is_ordered(x.m, y.m, 2 * z.m, y.m);
            lemma_nearest_doubled(z.m, y.m);
        }
    }
}

/// The larger a number, the larger its product.
pub proof fn products_are_ordered(x: Num, z: Num, y: Num)
    requires
        is_normal(x),
        is_normal(z),
        LOW <= y.m < HIGH,
        !less(z, x),
    ensures
        !less(times(z, y), times(x, y)),
        is_normal(times(x, y)),
{
    if x.m > 0 {
        assert(x.m * y.m > 0 && z.m * y.m > 0) by (nonlinear_arith)
            requires
                x.m > 0,
                z.m > 0,
                y.m > 0,
        ;
        lemma_nearest_normal(x.m * y.m, 1);
        lemma_nearest_normal(z.m * y.m, 1);
        if x.e == z.e {
            assert(x.m * y.m <= z.m * y.m) by (nonlinear_arith)
                requires
                    x.m <= z.m,
                    y.m > 0,
            ;
            nearest_is_ordered(x.m * y.m, 1, z.m * y.m, 1);
        } else {
            assert(x.m * y.m <= 2 * (z.m * y.m)) by (nonlinear_arith)
                requires
                    x.m <= 2 * z.m,
                    y.m > 0,
            ;
            nearest_is_ordered(x.m * y.m, 1, 2 * (z.m * y.m), 1);
            lemma_nearest_doubled(z.m * y.m, 1);
        }
    }
}

/// The larger a number, the larger the whole number nearest to it.
pub proof fn roundings_are_ordered(x: Num, z: Num)
    requires
        is_normal(x),
        is_normal(z),
        !less(z, x),
    ensures
        0 <= rounded(x) <= rounded(z),
{
    lemma2_to64();
    if x.m == 0 {
        assert(rounded(x) == 0) by {
            assert(0 * pow2(0) == 0);
        }
        lemma_rounded_small(z);
        return ;
    }
    lemma_rounded_small(x);
    if x.e == z.e {
        if x.e >= 0 {
            lemma_pow2_pos(x.e as nat);
            assert(x.m * pow2(x.e as nat) <= z.m * pow2(x.e as nat)) by (nonlinear_arith)
                requires
                    x.m <= z.m,
                    pow2(x.e as nat) > 0,
            ;
        } else {
            lemma_pow2_pos((-x.e) as nat);
            let d = pow2((-x.e) as nat) as int;
            vstd::arithmetic::div_mod::lemma_div_is_ordered(2 * x.m + d, 2 * z.m + d, 2 * d);
        }
    } else if x.e >= 0 {
        let a = pow2(x.e as nat) as int;
        let k = pow2((z.e - x.e) as nat) as int;
        lemma_pow2_adds(x.e as nat, (z.e - x.e) as nat);
        lemma_pow2_unfold((z.e - x.e) as nat);
        lemma_pow2_pos((z.e - x.e - 1) as nat);
        lemma_pow2_pos(x.e as nat);
        assert(x.m * a <= z.m * (a * k)) by (nonlinear_arith)
            requires
                x.m <= 2 * z.m,
                z.m > 0,
                k >= 2,
                a > 0,
        ;
    } else if z.e >= 0 {
        let b = pow2(z.e as nat) as int;
        lemma_pow2_pos(z.e as nat);
        assert(z.m * b >= LOW) by (nonlinear_arith)
            requires
                z.m >= LOW,
                b >= 1,
        ;
    } else {
        let d = pow2((-z.e) as nat) as int;
        let k = pow2((z.e - x.e) as nat) as int;
        lemma_pow2_adds((-z.e) as nat, (z.e - x.e) as nat);
        assert((-z.e) as nat + (z.e - x.e) as nat == (-x.e) as nat);
        lemma_pow2_unfold((z.e - x.e) as nat);
        lemma_pow2_pos((z.e - x.e - 1) as nat);
        lemma_pow2_pos((-z.e) as nat);
        let whole = pow2((-x.e) as nat) as int;
        assert(whole == d * k);
        assert((2 * z.m + d) * k >= 2 * x.m + whole) by (nonlinear_arith)
            requires
                whole == d * k,
                x.m <= 2 * z.m,
                z.m > 0,
                k >= 2,
        ;
        assert((2 * d) * k == 2 * whole) by (nonlinear_arith)
            requires
                whole == d * k,
        ;
        assert(2 * whole > 0) by (nonlinear_arith)
            requires
                whole == d * k,
                d > 0,
                k > 0,
        ;
        vstd::arithmetic::div_mod::lemma_div_is_ordered(
            2 * x.m + whole,
            (2 * z.m + d) * k,
            2 * whole,
        );
        assert(((2 * z.m + d) * k) / ((2 * d) * k) == (2 * z.m + d) / (2 * d)) by {
            lemma_div_cancels(2 * z.m + d, 2 * d, k);
        }
    }
}

/// The larger a number, the larger its whole part.
pub proof fn whole_parts_are_ordered(x: Num, z: Num)
    requires
        is_normal(x),
        is_normal(z),
        !less(z, x),
    ensures
        0 <= whole(x) <= whole(z),
{
    lemma2_to64();
    lemma_whole_small(x);
    lemma_whole_small(z);
    if x.m == 0 {
        assert(0 * pow2(0) == 0);
    } else if x.e == z.e {
        if x.e >= 0 {
            lemma_pow2_pos(x.e as nat);
            assert(x.m * pow2(x.e as nat) <= z.m * pow2(x.e as nat)) by (nonlinear_arith)
                requires
                    x.m <= z.m,
                    pow2(x.e as nat) > 0,
            ;
        } else {
            lemma_pow2_pos((-x.e) as nat);
            let d = pow2((-x.e) as nat) as int;
            vstd::arithmetic::div_mod::lemma_div_is_ordered(x.m, z.m, d);
        }
    } else if x.e >= 0 {
        let a = pow2(x.e as nat) as int;
        let k = pow2((z.e - x.e) as nat) as int;
        lemma_pow2_adds(x.e as nat, (z.e - x.e) as nat);
        lemma_pow2_unfold((z.e - x.e) as nat);
        lemma_pow2_pos((z.e - x.e - 1) as nat);
        lemma_pow2_pos(x.e as nat);
        assert(x.m * a <= z.m * (a * k)) by (nonlinear_arith)
            requires
                x.m <= 2 * z.m,
                z.m > 0,
                k >= 2,
                a > 0,
        ;
    } else if z.e >= 0 {
        let b = pow2(z.e as nat) as int;
        lemma_pow2_pos(z.e as nat);
        assert(z.m * b >= LOW) by (nonlinear_arith)
            requires
                z.m >= LOW,
                b >= 1,
        ;
    } else {
        let d = pow2((-z.e) as nat) as int;
        let k = pow2((z.e - x.e) as nat) as int;
        lemma_pow2_adds((-z.e) as nat, (z.e - x.e) as nat);
        assert((-z.e) as nat + (z.e - x.e) as nat == (-x.e) as nat);
        lemma_pow2_unfold((z.e - x.e) as nat);
        lemma_pow2_pos((z.e - x.e - 1) as nat);
        lemma_pow2_pos((-z.e) as nat);
        assert(z.m * k >= x.m && d * k > 0) by (nonlinear_arith)
            requires
                x.m <= 2 * z.m,
                z.m > 0,
                k >= 2,
                d > 0,
        ;
        vstd::arithmetic::div_mod::lemma_div_is_ordered(x.m, z.m * k, d * k);
        lemma_div_cancels(z.m, d, k);
    }
}

/// A number with digits after the point has a whole part below `2^52`.
proof fn lemma_whole_small(x: Num)
    requires
        is_normal(x),
    ensures
        whole(x) >= 0,
        x.e < 0 ==> whole(x) <= LOW,
{
    if x.e >= 0 {
        assert(x.m * pow2(x.e as nat) >= 0) by (nonlinear_arith)
            requires
                x.m >= 0,
                pow2(x.e as nat) >= 0,
        ;
    } else {
        lemma_pow2_unfold((-x.e) as nat);
        lemma_pow2_pos((-x.e - 1) as nat);
        let d = pow2((-x.e) as nat) as int;
        let q = x.m / d;
        assert(q >= 0) by (nonlinear_arith)
            requires
                x.m >= 0,
                d > 0,
                q == x.m / d,
        ;
        assert(q <= LOW) by (nonlinear_arith)
            requires
                0 <= x.m < 2 * LOW,
                LOW == 0x10_0000_0000_0000,
                d >= 2,
                q == x.m / d,
        ;
    }
}

proof fn lemma_div_cancels(a: int, b: int, k: int)
    requires
        a >= 0,
        b > 0,
        k > 0,
    ensures
        (a * k) / (b * k) == a / b,
{
    let q = a / b;
    let r = a % b;
    assert(a == q * b + r && 0 <= r < b) by (nonlinear_arith)
        requires
            b > 0,
            q == a / b,
            r == a % b,
    ;
    assert(a * k == q * (b * k) + r * k && 0 <= r * k < b * k) by (nonlinear_arith)
        requires
            a == q * b + r,
            0 <= r < b,
            k > 0,
    ;
    vstd::arithmetic::div_mod::lemma_fundamental_div_mod_converse(a * k, b * k, q, r * k);
}

/// A number with digits after the point rounds to no more than `2^52`.
proof fn lemma_rounded_small(x: Num)
    requires
        is_normal(x),
    ensures
        rounded(x) >= 0,
        x.e < 0 ==> rounded(x) <= LOW,
{
    if x.e >= 0 {
        assert(x.m * pow2(x.e as nat) >= 0) by (nonlinear_arith)
            requires
                x.m >= 0,
                pow2(x.e as nat) >= 0,
        ;
    } else {
        lemma_pow2_unfold((-x.e) as nat);
        lemma_pow2_pos((-x.e - 1) as nat);
        let d = pow2((-x.e) as nat) as int;
        let q = (2 * x.m + d) / (2 * d);
        assert(q >= 0) by (nonlinear_arith)
            requires
                x.m >= 0,
                d > 0,
                q == (2 * x.m + d) / (2 * d),
        ;
        assert(q <= LOW) by (nonlinear_arith)
            requires
                0 <= x.m < 2 * LOW,
                LOW == 0x10_0000_0000_0000,
                d >= 2,
                q == (2 * x.m + d) / (2 * d),
        ;
    }
}

/// A whole number of at most 53 binary digits is held as it is.
pub proof fn small_numbers_are_exact(n: int)
    requires
        0 < n < HIGH,
    ensures
        of(n).e <= 0,
        of(n).m == n * pow2((-of(n).e) as nat),
    decreases HIGH - n,
{
    lemma2_to64();
    if n < LOW {
        small_numbers_are_exact(2 * n);
        let e = of(2 * n).e;
        lemma_pow2_unfold((1 - e) as nat);
        assert((2 * n) * pow2((-e) as nat) == n * pow2((1 - e) as nat)) by (nonlinear_arith)
            requires
                pow2((1 - e) as nat) == 2 * pow2((-e) as nat),
        ;
    } else {
        assert(n / 1 == n && n % 1 == 0);
        assert(n * pow2(0) == n) by (nonlinear_arith)
            requires
                pow2(0) == 1,
        ;
    }
}

/// A whole number of at most 53 binary digits rounds to itself.
pub proof fn small_numbers_round_to_themselves(n: int)
    requires
        0 <= n < HIGH,
    ensures
        rounded(of(n)) == n,
{
    lemma2_to64();
    if n > 0 {
        small_numbers_are_exact(n);
        let x = of(n);
        if x.e < 0 {
            let d = pow2((-x.e) as nat) as int;
            lemma_pow2_pos((-x.e) as nat);
            assert((2 * x.m + d) / (2 * d) == n) by {
                assert(2 * x.m + d == n * (2 * d) + d) by (nonlinear_arith)
                    requires
                        x.m == n * d,
                ;
                vstd::arithmetic::div_mod::lemma_fundamental_div_mod_converse(
                    2 * x.m + d,
                    2 * d,
                    n,
                    d,
                );
            }
        } else {
            assert(n * pow2(0) == n) by (nonlinear_arith)
                requires
                    pow2(0) == 1,
            ;
            assert(x.m * pow2(0) == x.m) by (nonlinear_arith)
                requires
                    pow2(0) == 1,
            ;
        }
    } else {
        assert(0 * pow2(0) == 0);
    }
}

proof fn lemma_doublings(n: int, d: int, k: nat)
    requires
        n > 0,
        d > 0,
        k > 0 ==> n * pow2((k - 1) as nat) < LOW * d,
    ensures
        nearest(n, d) == shift(nearest(n * pow2(k), d), -k),
    decreases k,
{
    lemma2_to64();
    if k == 0 {
        assert(n * pow2(0) == n) by (nonlinear_arith)
            requires
                pow2(0) == 1,
        ;
    } else {
        let p = pow2((k - 1) as nat) as int;
        lemma_pow2_pos((k - 1) as nat);
        lemma_pow2_unfold(k);
        if k > 1 {
            lemma_pow2_strictly_increases((k - 2) as nat, (k - 1) as nat);
            let o = pow2((k - 2) as nat) as int;
            assert(n * o < LOW * d) by (nonlinear_arith)
                requires
                    n * p < LOW * d,
                    o < p,
                    n > 0,
            ;
        }
        lemma_doublings(n, d, (k - 1) as nat);
        assert(2 * (n * p) == n * pow2(k)) by (nonlinear_arith)
            requires
                pow2(k) == 2 * p,
        ;
        assert(n * p > 0) by (nonlinear_arith)
            requires
                n > 0,
                p > 0,
        ;
        assert(nearest(n * p, d) == shift(nearest(2 * (n * p), d), -1)) by {
            assert(n * p < HIGH * d);
        }
    }
}

/// A number over itself is one, and a number times one is itself.
pub proof fn one_is_neutral(x: Num)
    requires
        LOW <= x.m < HIGH,
    ensures
        over(x, x) == one(),
        times(one(), x) == x,
{
    lemma2_to64();
    lemma2_to64_rest();
    assert(x.m * pow2(51) < LOW * x.m) by (nonlinear_arith)
        requires
            x.m > 0,
            pow2(51) < LOW,
    ;
    lemma_doublings(x.m, x.m, 52);
    assert(x.m * pow2(52) == LOW * x.m) by (nonlinear_arith)
        requires
            pow2(52) == LOW,
    ;
    assert(nearest(LOW * x.m, x.m) == (Num { m: LOW as int, e: 0 })) by {
        vstd::arithmetic::div_mod::lemma_fundamental_div_mod_converse(
            LOW * x.m,
            x.m,
            LOW as int,
            0,
        );
    }
    assert(over(x, x) == one());
    lemma_doubled_often(x.m, 52);
    assert(nearest(x.m, 1) == (Num { m: x.m, e: 0 })) by {
        assert(x.m / 1 == x.m && x.m % 1 == 0);
    }
    assert(LOW * x.m == x.m * pow2(52));
    assert(times(one(), x) == x);
}

proof fn lemma_doubled_often(n: int, k: nat)
    requires
        n > 0,
    ensures
        nearest(n * pow2(k), 1) == shift(nearest(n, 1), k as int),
    decreases k,
{
    lemma2_to64();
    if k == 0 {
        assert(n * pow2(0) == n) by (nonlinear_arith)
            requires
                pow2(0) == 1,
        ;
    } else {
        lemma_doubled_often(n, (k - 1) as nat);
        lemma_pow2_unfold(k);
        lemma_pow2_pos((k - 1) as nat);
        let p = pow2((k - 1) as nat) as int;
        assert(n * p > 0) by (nonlinear_arith)
            requires
                n > 0,
                p > 0,
        ;
        lemma_nearest_doubled(n * p, 1);
        assert(2 * (n * p) == n * pow2(k)) by (nonlinear_arith)
            requires
                pow2(k) == 2 * p,
        ;
    }
}

proof fn lemma_half_of_small(n: int, a: int, d: int)
    requires
        0 < n < HIGH,
        0 < d,
        d <= 2 * a,
    ensures
        n / 2 <= whole(times(of(n), nearest(a, d))),
{
    lemma2_to64();
    lemma2_to64_rest();
    let x = of(n);
    let half = Num { m: LOW as int, e: -53 };
    lemma_nearest_normal(n, 1);
    lemma_nearest_normal(a, d);
    assert(nearest(1, 2) == half) by {
        assert(1 * pow2(52) < LOW * 2);
        lemma_doublings(1, 2, 53);
        assert(1 * pow2(53) == HIGH);
        assert(HIGH as int / 2 == LOW && HIGH as int % 2 == 0);
        assert(nearest(HIGH as int, 2) == (Num { m: LOW as int, e: 0 }));
    }
    nearest_is_ordered(1, 2, a, d);
    one_is_neutral(x);
    assert(times(half, x) == shift(x, -1)) by {
        assert(times(one(), x) == x);
        assert(half.m * x.m > 0) by (nonlinear_arith)
            requires
                half.m > 0,
                x.m > 0,
        ;
    }
    products_are_ordered(half, nearest(a, d), x);
    products_are_ordered(nearest(a, d), nearest(a, d), x);
    assert(times(nearest(a, d), x) == times(x, nearest(a, d))) by {
        assert(nearest(a, d).m * x.m == x.m * nearest(a, d).m) by (nonlinear_arith);
    }
    whole_parts_are_ordered(shift(x, -1), times(x, nearest(a, d)));
    small_numbers_are_exact(n);
    let p = pow2((-x.e) as nat) as int;
    lemma_pow2_pos((-x.e) as nat);
    lemma_pow2_unfold((1 - x.e) as nat);
    lemma_div_cancels(n, 2, p);
}

/// A number is at most a unit above what is nearest to it.
proof fn lemma_close(n: int, d: int)
    requires
        d > 0,
        n >= LOW * d,
    ensures
        nearest(n, d).e >= 0,
        n <= (nearest(n, d).m + 1) * pow2(nearest(n, d).e as nat) * d,
    decreases
            (if n >= HIGH * d {
                n / d
            } else {
                0
            }),
{
    lemma2_to64();
    let r = nearest(n, d);
    if n >= HIGH * d {
        assert(n / (2 * d) < n / d && n / (2 * d) >= 0) by (nonlinear_arith)
            requires
                d > 0,
                n >= 0x20_0000_0000_0000 * d,
        ;
        assert(n / d > 0) by (nonlinear_arith)
            requires
                d > 0,
                n >= 0x20_0000_0000_0000 * d,
        ;
        lemma_close(n, 2 * d);
        let p = pow2((r.e - 1) as nat) as int;
        lemma_pow2_unfold(r.e as nat);
        assert((r.m + 1) * p * (2 * d) == (r.m + 1) * (2 * p) * d) by (nonlinear_arith);
    } else {
        lemma_half_even(n, d);
        let low = n / d;
        assert(n <= (low + 1) * d) by (nonlinear_arith)
            requires
                d > 0,
                low == n / d,
        ;
        let m = half_even(n, d);
        assert(n <= (m + 1) * d) by (nonlinear_arith)
            requires
                n <= (low + 1) * d,
                low <= m,
                d > 0,
        ;
        if m >= HIGH {
            assert(n <= (LOW + 1) * 2 * d) by (nonlinear_arith)
                requires
                    n < HIGH * d,
                    HIGH == 2 * LOW,
                    d > 0,
            ;
        } else {
            assert((m + 1) * 1 * d == (m + 1) * d);
        }
    }
}

proof fn lemma_half_of_large(n: int, a: int, d: int)
    requires
        n >= HIGH,
        0 < d,
        3 * d <= 4 * a,
    ensures
        n / 2 <= whole(times(of(n), nearest(a, d))),
{
    lemma2_to64();
    lemma2_to64_rest();
    let x = of(n);
    let f = nearest(a, d);
    let most = Num { m: 3 * pow2(51) as int, e: -53 };
    lemma_nearest_normal(n, 1);
    lemma_nearest_normal(a, d);
    lemma_exponent_side(n, 1);
    assert(nearest(3, 4) == most) by {
        assert(3 * pow2(50) < LOW * 4);
        lemma_pow2_unfold(53);
        assert(3 * pow2(52) < LOW * 4);
        lemma_doublings(3, 4, 53);
        assert(3 * pow2(53) == 4 * (3 * pow2(51)));
        vstd::arithmetic::div_mod::lemma_fundamental_div_mod_converse(
            3 * pow2(53) as int,
            4,
            3 * pow2(51) as int,
            0,
        );
    }
    nearest_is_ordered(3, 4, a, d);
    products_are_ordered(most, f, x);
    products_are_ordered(f, f, x);
    assert(times(f, x) == times(x, f)) by {
        assert(f.m * x.m == x.m * f.m) by (nonlinear_arith);
    }
    lemma_doubled_often(3 * x.m, 51);
    assert((3 * x.m) * pow2(51) == most.m * x.m) by (nonlinear_arith)
        requires
            most.m == 3 * pow2(51),
    ;
    assert(most.m * x.m > 0) by (nonlinear_arith)
        requires
            most.m > 0,
            x.m > 0,
    ;
    nearest_is_ordered(2 * (x.m + 1), 1, 3 * x.m, 1);
    lemma_nearest_doubled(x.m + 1, 1);
    lemma_nearest_normal(x.m + 1, 1);
    let y = shift(nearest(x.m + 1, 1), x.e - 1);
    whole_parts_are_ordered(y, times(x, f));
    assert((x.m + 1) / 1 == x.m + 1 && (x.m + 1) % 1 == 0);
    lemma_close(n, 1);
    let p = pow2((x.e - 1) as nat) as int;
    lemma_pow2_unfold(x.e as nat);
    assert(whole(y) == (x.m + 1) * p) by {
        if x.m + 1 == HIGH {
            assert((x.m + 1) / 2 == LOW && (x.m + 1) % 2 == 0);
            assert(nearest(x.m + 1, 1) == shift(nearest(x.m + 1, 2), 1));
            assert(nearest(x.m + 1, 2) == (Num { m: LOW as int, e: 0 }));
            assert(LOW * (2 * p) == (x.m + 1) * p) by (nonlinear_arith)
                requires
                    x.m + 1 == 2 * LOW,
            ;
        }
    }
    assert((x.m + 1) * (2 * p) * 1 == 2 * ((x.m + 1) * p)) by (nonlinear_arith);
}

/// A fraction of a number of places that is at least three quarters makes up at
/// least half of them, and the larger the fraction, the more.
pub proof fn places_are_ordered(n: int, a: int, b: int, d: int)
    requires
        0 < n,
        0 < d,
        3 * d <= 4 * a,
        a <= b,
    ensures
        n / 2 <= whole(times(of(n), nearest(a, d))) <= whole(times(of(n), nearest(b, d))),
{
    let x = of(n);
    lemma_nearest_normal(n, 1);
    lemma_nearest_normal(a, d);
    lemma_nearest_normal(b, d);
    if n < HIGH {
        lemma_half_of_small(n, a, d);
    } else {
        lemma_half_of_large(n, a, d);
    }
    assert(a * d <= b * d) by (nonlinear_arith)
        requires
            a <= b,
            d > 0,
    ;
    nearest_is_ordered(a, d, b, d);
    products_are_ordered(nearest(a, d), nearest(b, d), x);
    products_are_ordered(nearest(b, d), nearest(b, d), x);
    assert(times(nearest(a, d), x) == times(x, nearest(a, d))) by {
        assert(nearest(a, d).m * x.m == x.m * nearest(a, d).m) by (nonlinear_arith);
    }
    assert(times(nearest(b, d), x) == times(x, nearest(b, d))) by {
        assert(nearest(b, d).m * x.m == x.m * nearest(b, d).m) by (nonlinear_arith);
    }
    whole_parts_are_ordered(times(x, nearest(a, d)), times(x, nearest(b, d)));
}

/// Whether `part` is more than half of `all`.
pub open spec fn is_majority(part: int, all: int) -> bool {
    less(shift(of(all), -1), of(part))
}

/// Of numbers of at most 53 binary digits, that is so where it is true.
pub proof fn majorities_are_more_than_half(part: int, all: int)
    requires
        0 <= part < HIGH,
        0 < all < HIGH,
    ensures
        is_majority(part, all) == (2 * part > all),
{
    if part > 0 {
        small_numbers_are_exact(part);
        small_numbers_are_exact(all);
        lemma_nearest_normal(part, 1);
        lemma_nearest_normal(all, 1);
        let x = of(all);
        let y = of(part);
        let a = pow2((-x.e) as nat) as int;
        let b = pow2((-y.e) as nat) as int;
        lemma_pow2_pos((-x.e) as nat);
        lemma_pow2_pos((-y.e) as nat);
        if x.e - 1 == y.e {
            lemma_pow2_unfold((1 - x.e) as nat);
            assert(part * b == (2 * part) * a) by (nonlinear_arith)
                requires
                    b == 2 * a,
            ;
            assert((all * a < (2 * part) * a) == (all < 2 * part)) by (nonlinear_arith)
                requires
                    a > 0,
            ;
        } else if x.e - 1 < y.e {
            assert(b <= a) by {
                if y.e > x.e {
                    lemma_pow2_strictly_increases((-y.e) as nat, (-x.e) as nat);
                }
            }
            assert(2 * part > all) by (nonlinear_arith)
                requires
                    all * a < 2 * LOW,
                    part * b >= LOW,
                    0 < b <= a,
                    part > 0,
            ;
        } else {
            let k = (x.e - 1 - y.e) as nat;
            lemma_pow2_adds((1 - x.e) as nat, k);
            lemma_pow2_unfold((1 - x.e) as nat);
            lemma_pow2_unfold(k);
            lemma_pow2_pos((k - 1) as nat);
            assert((1 - x.e) as nat + k == (-y.e) as nat);
            let c = pow2(k) as int;
            assert(b == (2 * a) * c);
            assert(b >= 4 * a) by (nonlinear_arith)
                requires
                    b == (2 * a) * c,
                    c >= 2,
                    a > 0,
            ;
            assert(2 * part <= all) by (nonlinear_arith)
                requires
                    all * a >= LOW,
                    part * b < 2 * LOW,
                    b >= 4 * a,
                    a > 0,
                    part > 0,
            ;
        }
    }
}

proof fn lemma_scaled_up(n: int, d: int, k: nat)
    requires
        n > 0,
        d > 0,
    ensures
        nearest(n * pow2(k), d) == shift(nearest(n, d), k as int),
        nearest(n, d * pow2(k)) == shift(nearest(n, d), -k),
    decreases k,
{
    lemma2_to64();
    if k == 0 {
        assert(n * pow2(0) == n && d * pow2(0) == d) by (nonlinear_arith)
            requires
                pow2(0) == 1,
        ;
    } else {
        lemma_scaled_up(n, d, (k - 1) as nat);
        lemma_pow2_unfold(k);
        lemma_pow2_pos((k - 1) as nat);
        let p = pow2((k - 1) as nat) as int;
        assert(n * p > 0 && d * p > 0) by (nonlinear_arith)
            requires
                n > 0,
                d > 0,
                p > 0,
        ;
        lemma_nearest_doubled(n * p, d);
        lemma_nearest_doubled(n, d * p);
        lemma_nearest_doubled(n, 2 * (d * p));
        assert(2 * (n * p) == n * pow2(k) && 2 * (d * p) == d * pow2(k)) by (nonlinear_arith)
            requires
                pow2(k) == 2 * p,
        ;
        assert(nearest(2 * n, 2 * (d * p)) == nearest(n, d * p));
        assert(nearest(2 * n, 2 * (d * p)) == shift(nearest(n, 2 * (d * p)), 1));
    }
}

/// The quotient of two numbers of at most 53 binary digits is the number nearest
/// to the exact one.
pub proof fn small_shares_are_nearest(num: int, den: int)
    requires
        0 < num < HIGH,
        0 < den < HIGH,
    ensures
        share(num, den) == nearest(num, den),
{
    small_numbers_are_exact(num);
    small_numbers_are_exact(den);
    lemma_nearest_normal(num, 1);
    lemma_nearest_normal(den, 1);
    let x = of(num);
    let y = of(den);
    let k = (-x.e) as nat;
    let j = (-y.e) as nat;
    lemma_pow2_pos(j);
    assert(den * pow2(j) > 0) by (nonlinear_arith)
        requires
            den > 0,
            pow2(j) > 0,
    ;
    lemma_scaled_up(num, den * pow2(j), k);
    lemma_scaled_up(num, den, j);
}

/// Up to a trillion, a quotient is at least three tenths where it is so of the
/// exact numbers.
pub proof fn three_tenths_is_exact(num: int, den: int)
    requires
        0 <= num < 1_000_000_000_000,
        0 < den < 1_000_000_000_000,
    ensures
        less(share(num, den), nearest(3, 10)) == (10 * num < 3 * den),
{
    lemma2_to64();
    lemma2_to64_rest();
    lemma_nearest_normal(3, 10);
    if num > 0 {
        small_shares_are_nearest(num, den);
        lemma_nearest_normal(num, den);
        let third = Num { m: 0x13_3333_3333_3333, e: -54 };
        assert(nearest(3, 10) == third) by {
            assert(3 * pow2(53) < LOW * 10);
            lemma_doublings(3, 10, 54);
            vstd::arithmetic::div_mod::lemma_fundamental_div_mod_converse(
                3 * pow2(54) as int,
                10,
                0x13_3333_3333_3333,
                2,
            );
        }
        if 10 * num >= 3 * den {
            nearest_is_ordered(3, 10, num, den);
        } else {
            let below = Num { m: 0x13_3333_3333_3332, e: -54 };
            let a = 0x13_3333_3333_3332int;
            let b = pow2(54) as int;
            assert(nearest(a, b) == below) by {
                lemma_scaled_up(a, 1, 54);
                assert(1 * pow2(54) == pow2(54));
                assert(a / 1 == a && a % 1 == 0);
            }
            assert(num * b <= a * den) by (nonlinear_arith)
                requires
                    10 * num < 3 * den,
                    0 < den < 1_000_000_000_000,
                    b == 0x40_0000_0000_0000,
                    a == 0x13_3333_3333_3332,
            ;
            nearest_is_ordered(num, den, a, b);
        }
    }
}

/// A larger count over as many days is no smaller rate.
pub proof fn rates_grow_with_counts(a: int, b: int, days: int)
    requires
        0 <= a <= b,
    ensures
        !less(per_year(b, days), per_year(a, days)),
{
    if a > 0 {
        lemma_nearest_normal(a, 1);
        lemma_nearest_normal(b, 1);
        nearest_is_ordered(a, 1, b, 1);
        if days > 0 {
            lemma_nearest_normal(days, 1);
            lemma_nearest_normal(1461, 4);
            lemma_nearest_normal(of(days).m, nearest(1461, 4).m);
            quotients_are_ordered(of(a), of(b), over(of(days), nearest(1461, 4)));
        }
    }
}

/// A larger part is no smaller share, and nothing is no share.
pub proof fn shares_grow_with_parts(a: int, b: int, all: int)
    requires
        0 <= a <= b,
    ensures
        !less(share(b, all), share(a, all)),
        !less(percentage(b, all), percentage(a, all)),
        share(0, all).m == 0,
        all > 0 ==> share(all, all) == one() && percentage(all, all) == of(100),
{
    lemma_nearest_normal(100, 1);
    if all > 0 {
        lemma_nearest_normal(all, 1);
        one_is_neutral(of(all));
        one_is_neutral(of(100));
        if b > 0 {
            lemma_nearest_normal(b, 1);
        }
        if a > 0 {
            lemma_nearest_normal(a, 1);
            nearest_is_ordered(a, 1, b, 1);
        }
        quotients_are_ordered(of(a), of(b), of(all));
        quotients_are_ordered(of(b), of(b), of(all));
        products_are_ordered(share(a, all), share(b, all), of(100));
    }
}

/// The product of two numbers is exact where it has at most 53 binary digits.
pub proof fn small_products_are_exact(a: int, b: int)
    requires
        0 < a,
        0 < b,
        a * b < HIGH,
    ensures
        times(of(a), of(b)) == of(a * b),
{
    assert(a < HIGH && b < HIGH && a * b > 0) by (nonlinear_arith)
        requires
            0 < a,
            0 < b,
            a * b < HIGH,
    ;
    small_numbers_are_exact(a);
    small_numbers_are_exact(b);
    lemma_nearest_normal(a, 1);
    lemma_nearest_normal(b, 1);
    let x = of(a);
    let y = of(b);
    let k = (-x.e) as nat;
    let j = (-y.e) as nat;
    vstd::arithmetic::power2::lemma_pow2_adds(k, j);
    assert(x.m * y.m == (a * b) * pow2(k + j)) by (nonlinear_arith)
        requires
            x.m == a * pow2(k),
            y.m == b * pow2(j),
            pow2(k) * pow2(j) == pow2(k + j),
    ;
    lemma_scaled_up(a * b, 1, k + j);
}

/// A whole number of at most 53 binary digits is its own whole part.
pub proof fn small_numbers_are_whole(n: int)
    requires
        0 <= n < HIGH,
    ensures
        whole(of(n)) == n,
{
    lemma2_to64();
    if n > 0 {
        small_numbers_are_exact(n);
        let x = of(n);
        if x.e < 0 {
            let d = pow2((-x.e) as nat) as int;
            lemma_pow2_pos((-x.e) as nat);
            assert(x.m / d == n) by (nonlinear_arith)
                requires
                    x.m == n * d,
                    d > 0,
            ;
        } else {
            assert(n * pow2(0) == n) by (nonlinear_arith)
                requires
                    pow2(0) == 1,
            ;
            assert(x.m * pow2(0) == x.m) by (nonlinear_arith)
                requires
                    pow2(0) == 1,
            ;
        }
    }
}

/// Whole numbers of at most 53 binary digits keep their order.
pub proof fn small_numbers_are_ordered(a: int, b: int)
    requires
        0 < a < b < HIGH,
    ensures
        less(of(a), of(b)),
{
    small_numbers_are_exact(a);
    small_numbers_are_exact(b);
    lemma_nearest_normal(a, 1);
    lemma_nearest_normal(b, 1);
    let x = of(a);
    let y = of(b);
    let k = (-x.e) as nat;
    let j = (-y.e) as nat;
    lemma_pow2_pos(k);
    lemma_pow2_pos(j);
    assert(a * pow2(k) < b * pow2(k)) by (nonlinear_arith)
        requires
            a < b,
            pow2(k) > 0,
    ;
    if k < j {
        vstd::arithmetic::power2::lemma_pow2_adds(k, (j - k) as nat);
        lemma_pow2_unfold((j - k) as nat);
        lemma_pow2_pos((j - k - 1) as nat);
        assert(b * pow2(j) >= 2 * (b * pow2(k))) by (nonlinear_arith)
            requires
                pow2(j) == pow2(k) * pow2((j - k) as nat),
                pow2((j - k) as nat) == 2 * pow2((j - k - 1) as nat),
                pow2((j - k - 1) as nat) > 0,
                b > 0,
                pow2(k) > 0,
        ;
    }
}

/// Whether a quotient lies below a whole number is told exactly.
pub proof fn whole_bounds_are_exact(num: int, den: int, bound: int)
    requires
        0 <= num < HIGH,
        0 < den < 0x1_0000_0000,
        0 < bound < 0x10_0000,
    ensures
        less(share(num, den), of(bound)) == (num < bound * den),
{
    lemma2_to64();
    lemma_nearest_normal(bound, 1);
    assert(bound * den > 0) by (nonlinear_arith)
        requires
            bound > 0,
            den > 0,
    ;
    if num > 0 {
        small_shares_are_nearest(num, den);
        lemma_nearest_normal(num, den);
        if num >= bound * den {
            nearest_is_ordered(bound, 1, num, den);
        } else {
            let p = pow2(32) as int;
            let a = bound * p - 1;
            assert(0 < a < bound * p < HIGH) by (nonlinear_arith)
                requires
                    0 < bound < 0x10_0000,
                    p == 0x1_0000_0000,
                    a == bound * p - 1,
            ;
            assert(num * p <= a * den) by (nonlinear_arith)
                requires
                    num <= bound * den - 1,
                    0 < den < p,
                    a == bound * p - 1,
                    p > 0,
            ;
            nearest_is_ordered(num, den, a, p);
            lemma_scaled_up(a, 1, 32);
            assert(1 * pow2(32) == pow2(32));
            lemma_scaled_up(bound, 1, 32);
            small_numbers_are_ordered(a, bound * p);
            lemma_nearest_normal(a, p);
            lemma_nearest_normal(a, 1);
            assert(less(nearest(a, p), of(bound)));
            assert(!less(nearest(a, p), nearest(num, den)));
        }
    }
}

proof fn lemma_place_near(n: int, m: int)
    requires
        0 < n < HIGH,
        LOW <= m < HIGH,
    ensures
        times(of(n), (Num { m, e: -53 })) == nearest(n * m, pow2(53) as int),
{
    small_numbers_are_exact(n);
    lemma_nearest_normal(n, 1);
    let x = of(n);
    let k = (-x.e) as nat;
    assert(n * m > 0) by (nonlinear_arith)
        requires
            n > 0,
            m > 0,
    ;
    assert(x.m * m == (n * m) * pow2(k)) by (nonlinear_arith)
        requires
            x.m == n * pow2(k),
    ;
    lemma_scaled_up(n * m, 1, k);
    lemma_scaled_up(n * m, 1, 53);
    assert(1 * pow2(53) == pow2(53));
}

proof fn lemma_whole_zero()
    ensures
        whole(zero()) == 0,
{
    assert(0 * pow2(0) == 0) by (nonlinear_arith);
}

/// The whole part of a number of parts of two hundred and fifty-six.
proof fn lemma_whole_of_eighth(a: int)
    requires
        0 < a < HIGH,
    ensures
        whole(nearest(a, 256)) == a / 256,
{
    lemma2_to64();
    lemma_scaled_up(a, 1, 8);
    assert(1 * pow2(8) == 256);
    small_numbers_are_exact(a);
    lemma_nearest_normal(a, 1);
    let x = of(a);
    let k = (-x.e) as nat;
    lemma_pow2_pos(k);
    vstd::arithmetic::power2::lemma_pow2_adds(k, 8);
    let p = pow2(k) as int;
    assert(x.m / (p * 256) == a / 256) by (nonlinear_arith)
        requires
            x.m == a * p,
            p > 0,
    ;
}

/// What is rounded is nearest, and even where two are equally near.
pub proof fn roundings_are_nearest_and_even(n: int, d: int)
    requires
        0 <= n,
        0 < d,
    ensures
        2 * n - d <= 2 * (half_even(n, d) * d) <= 2 * n + d,
        2 * (half_even(n, d) * d) == 2 * n - d || 2 * (half_even(n, d) * d) == 2 * n + d
            ==> half_even(n, d) % 2 == 0,
{
    let low = n / d;
    let rest = n % d;
    assert(n == low * d + rest && 0 <= rest < d) by (nonlinear_arith)
        requires
            d > 0,
            low == n / d,
            rest == n % d,
    ;
    assert((low + 1) * d == low * d + d) by (nonlinear_arith);
}

/// Two digits after the point are those of the nearest hundredth, one digit those
/// of the nearest tenth.
pub proof fn digits_show_the_nearest(x: Num)
    requires
        is_normal(x),
        x.e < 0,
    ensures
        ({
            let r = scaled(x, 100);
            let d = pow2((-x.e) as nat) as int;
            &&& 2 * (x.m * 100) - d <= 2 * (r * d) <= 2 * (x.m * 100) + d
            &&& two_places(x) == text::decimal((r / 100) as nat) + seq![
                '.',
                text::digit((r / 10 % 10) as nat),
                text::digit((r % 10) as nat),
            ]
        }),
        ({
            let r = scaled(x, 10);
            let d = pow2((-x.e) as nat) as int;
            &&& 2 * (x.m * 10) - d <= 2 * (r * d) <= 2 * (x.m * 10) + d
            &&& one_place(x) == text::decimal((r / 10) as nat) + seq![
                '.',
                text::digit((r % 10) as nat),
            ]
        }),
{
    lemma_pow2_pos((-x.e) as nat);
    roundings_are_nearest_and_even(x.m * 100, pow2((-x.e) as nat) as int);
    roundings_are_nearest_and_even(x.m * 10, pow2((-x.e) as nat) as int);
}

/// What is too large is held at the largest number.
pub proof fn large_numbers_are_held(n: int)
    ensures
        n <= u64::MAX ==> held(n) == n,
        n > u64::MAX ==> held(n) == u64::MAX,
{
}

/// The place below which ninety-five in a hundred of so many places lie is theirs, or
/// the one before it.
pub proof fn ninety_five_in_a_hundred(n: int)
    requires
        0 < n < 1_000_000_000_000,
    ensures
        ({
            let at = whole(times(of(n), nearest(95, 100)));
            95 * n / 100 - 1 <= at <= 95 * n / 100
        }),
{
    lemma2_to64();
    lemma2_to64_rest();
    let m = 8556839292003942int;
    let d = pow2(53) as int;
    assert(nearest(95, 100) == Num { m, e: -53 }) by {
        lemma_doublings(95, 100, 53);
        vstd::arithmetic::div_mod::lemma_fundamental_div_mod_converse(
            95 * pow2(53) as int,
            100,
            m,
            40,
        );
    }
    lemma_place_near(n, m);
    let k = 95 * n / 100;
    let at = nearest(n * m, d);
    assert(n * m > 0) by (nonlinear_arith)
        requires
            n > 0,
            m == 8556839292003942,
    ;
    lemma_nearest_normal(n * m, d);
    let a = (k + 1) * 256 - 1;
    assert((n * m) * 256 <= a * d) by (nonlinear_arith)
        requires
            d == 0x20_0000_0000_0000,
            m == 8556839292003942,
            a == (k + 1) * 256 - 1,
            95 * n <= 100 * k + 99,
            0 < n < 1_000_000_000_000,
    ;
    nearest_is_ordered(n * m, d, a, 256);
    lemma_scaled_up(a, 1, 8);
    assert(1 * pow2(8) == 256);
    lemma_nearest_normal(a, 256);
    lemma_whole_of_eighth(a);
    whole_parts_are_ordered(at, nearest(a, 256));
    assert(a / 256 == k);
    if k > 1 {
        assert((k - 1) * d <= (n * m) * 1) by (nonlinear_arith)
            requires
                d == 0x20_0000_0000_0000,
                m == 8556839292003942,
                100 * k <= 95 * n,
                0 < n < 1_000_000_000_000,
        ;
        nearest_is_ordered(k - 1, 1, n * m, d);
        lemma_nearest_normal(k - 1, 1);
        small_numbers_are_whole(k - 1);
        whole_parts_are_ordered(of(k - 1), at);
    } else {
        whole_parts_are_ordered(zero(), at);
        lemma_whole_zero();
    }
}

/// The place below which ninety-nine in a hundred of so many places lie is theirs, or
/// the one before it.
pub proof fn ninety_nine_in_a_hundred(n: int)
    requires
        0 < n < 1_000_000_000_000,
    ensures
        ({
            let at = whole(times(of(n), nearest(99, 100)));
            99 * n / 100 - 1 <= at <= 99 * n / 100
        }),
{
    lemma2_to64();
    lemma2_to64_rest();
    let m = 8917127262193582int;
    let d = pow2(53) as int;
    assert(nearest(99, 100) == Num { m, e: -53 }) by {
        lemma_doublings(99, 100, 53);
        vstd::arithmetic::div_mod::lemma_fundamental_div_mod_converse(
            99 * pow2(53) as int,
            100,
            m,
            8,
        );
    }
    lemma_place_near(n, m);
    let k = 99 * n / 100;
    let at = nearest(n * m, d);
    assert(n * m > 0) by (nonlinear_arith)
        requires
            n > 0,
            m == 8917127262193582,
    ;
    lemma_nearest_normal(n * m, d);
    let a = (k + 1) * 256 - 1;
    assert((n * m) * 256 <= a * d) by (nonlinear_arith)
        requires
            d == 0x20_0000_0000_0000,
            m == 8917127262193582,
            a == (k + 1) * 256 - 1,
            99 * n <= 100 * k + 99,
            0 < n < 1_000_000_000_000,
    ;
    nearest_is_ordered(n * m, d, a, 256);
    lemma_scaled_up(a, 1, 8);
    assert(1 * pow2(8) == 256);
    lemma_nearest_normal(a, 256);
    lemma_whole_of_eighth(a);
    whole_parts_are_ordered(at, nearest(a, 256));
    assert(a / 256 == k);
    if k > 1 {
        assert((k - 1) * d <= (n * m) * 1) by (nonlinear_arith)
            requires
                d == 0x20_0000_0000_0000,
                m == 8917127262193582,
                100 * k <= 99 * n,
                0 < n < 1_000_000_000_000,
        ;
        nearest_is_ordered(k - 1, 1, n * m, d);
        lemma_nearest_normal(k - 1, 1);
        small_numbers_are_whole(k - 1);
        whole_parts_are_ordered(of(k - 1), at);
    } else {
        whole_parts_are_ordered(zero(), at);
        lemma_whole_zero();
    }
}

// ---------------------------------------------------------------------------
// Computation
// ---------------------------------------------------------------------------

/// A number of double precision that is not negative.
#[derive(Debug, Clone, Copy)]
pub struct Double {
    pub m: u64,
    pub e: i32,
}

impl View for Double {
    type V = Num;

    open spec fn view(&self) -> Num {
        Num { m: self.m as int, e: self.e as int }
    }
}

/// The whole number that a number comes to, or the largest one.
pub open spec fn held(n: int) -> int {
    if n > u64::MAX {
        u64::MAX as int
    } else {
        n
    }
}

/// The number nearest to `n / d`.
fn round_to_double(n: u128, d: u128) -> (r: Double)
    requires
        0 < n < 0x400_0000_0000_0000_0000_0000_0000,
        0 < d <= 0xffff_ffff_ffff_ffff,
    ensures
        r@ == nearest(n as int, d as int),
        LOW <= r.m < HIGH,
        -118 <= r.e <= 65,
{
    proof {
        lemma2_to64();
        lemma_nearest_normal(n as int, d as int);
    }
    let ghost whole_n = n as int;
    let ghost whole_d = d as int;
    let mut a: u128 = n;
    let mut b: u128 = d;
    let mut e: i32 = 0;
    while a >= HIGH as u128 * b
        invariant
            0 < a < 0x400_0000_0000_0000_0000_0000_0000,
            a == whole_n,
            0 < b <= 0x1_0000_0000_0000_0000,
            0 <= e <= 64,
            b >= pow2(e as nat),
            nearest(whole_n, whole_d) == shift(nearest(a as int, b as int), e as int),
        decreases a - b,
    {
        let ghost t = nearest(a as int, 2 * b as int);
        proof {
            assert(b < 0x20_0000_0000_0000) by (nonlinear_arith)
                requires
                    a >= 0x20_0000_0000_0000 * b,
                    a < 0x400_0000_0000_0000_0000_0000_0000,
            ;
        }
        b = 2 * b;
        e += 1;
        proof {
            lemma_pow2_unfold(e as nat);
            lemma2_to64_rest();
            if e > 64 {
                lemma_pow2_strictly_increases(64, e as nat);
            }
            assert(shift(shift(t, 1), e - 1) == shift(t, e as int));
        }
    }
    let ghost mut k: nat = 0;
    let ghost top = e as int;
    while a < LOW as u128 * b
        invariant
            0 < a,
            a >= pow2(k),
            0 <= top <= 64,
            e == top - k,
            k <= 118,
            a < HIGH as u128 * b,
            0 < b <= 0x1_0000_0000_0000_0000,
            nearest(whole_n, whole_d) == shift(nearest(a as int, b as int), e as int),
        decreases HIGH * b - a,
    {
        let ghost t = nearest(2 * a as int, b as int);
        proof {
            assert(2 * a < HIGH * b) by (nonlinear_arith)
                requires
                    a < LOW * b,
                    HIGH == 2 * LOW,
            ;
        }
        a = 2 * a;
        e -= 1;
        proof {
            k = k + 1;
            lemma_pow2_unfold(k);
            lemma2_to64_rest();
            lemma_pow2_adds(54, 64);
            if k >= 118 {
                if k > 118 {
                    lemma_pow2_strictly_increases(118, k);
                }
                assert(false);
            }
            assert(shift(shift(t, -1), e + 1) == shift(t, e as int));
        }
    }
    let low: u128 = a / b;
    let rest: u128 = a % b;
    proof {
        lemma_half_even(a as int, b as int);
        assert(LOW as int * b <= a);
        assert(a <= HIGH as int * b);
    }
    let m: u128 = if 2 * rest > b || (2 * rest == b && low % 2 == 1) {
        low + 1
    } else {
        low
    };
    if m >= HIGH as u128 {
        Double { m: LOW, e: e + 1 }
    } else {
        Double { m: m as u64, e }
    }
}

/// `2^k`.
fn power_of_two(k: u32) -> (r: u128)
    requires
        k <= 100,
    ensures
        r == pow2(k as nat),
{
    let mut r: u128 = 1;
    let mut i: u32 = 0;
    proof {
        lemma2_to64();
    }
    while i < k
        invariant
            i <= k <= 100,
            r == pow2(i as nat),
        decreases k - i,
    {
        proof {
            lemma_pow2_unfold((i + 1) as nat);
            lemma_small_power((i + 1) as nat);
        }
        r = 2 * r;
        i += 1;
    }
    r
}

proof fn lemma_small_power(k: nat)
    requires
        k <= 100,
    ensures
        1 <= pow2(k) <= 0x10_0000_0000_0000_0000_0000_0000,
{
    lemma2_to64_rest();
    lemma_pow2_adds(36, 64);
    lemma_pow2_pos(k);
    if k < 100 {
        lemma_pow2_strictly_increases(k, 100);
    }
}

proof fn lemma_large_power(k: nat)
    requires
        k >= 100,
    ensures
        pow2(k) >= 0x10_0000_0000_0000_0000_0000_0000,
{
    lemma2_to64_rest();
    lemma_pow2_adds(36, 64);
    if k > 100 {
        lemma_pow2_strictly_increases(100, k);
    }
}

/// A number that operations and texts can be made of.
pub open spec fn is_plain(x: Double) -> bool {
    is_normal(x@) && -1000 <= x.e <= 1000
}

impl Double {
    /// A whole number.
    pub fn of(n: u64) -> (r: Double)
        ensures
            r@ == of(n as int),
            is_normal(r@),
            -52 <= r.e <= 12,
            0 < n <= 100 ==> r.e <= -45,
            n > 0 ==> r.m > 0,
    {
        if n == 0 {
            return Double { m: 0, e: 0 };
        }
        proof {
            lemma2_to64();
            lemma2_to64_rest();
            lemma_exponent_above(n as int, 1, 64);
            assert(n * pow2(52) >= LOW) by (nonlinear_arith)
                requires
                    n >= 1,
                    pow2(52) == 0x10_0000_0000_0000,
                    LOW == 0x10_0000_0000_0000,
            ;
            lemma_exponent_least(n as int, 1, 52);
            if n <= 100 {
                assert(n * pow2(46) < HIGH) by (nonlinear_arith)
                    requires
                        n <= 100,
                        pow2(46) == 0x4000_0000_0000,
                        HIGH == 0x20_0000_0000_0000,
                ;
                lemma_exponent_below(n as int, 1, 46);
            }
        }
        round_to_double(n as u128, 1)
    }

    /// The number nearest to the fraction `n / d`.
    pub fn fraction(n: u64, d: u64) -> (r: Double)
        requires
            0 < n < d,
        ensures
            r@ == nearest(n as int, d as int),
            is_normal(r@),
            -118 <= r.e <= -52,
            r.m > 0,
    {
        proof {
            lemma2_to64_rest();
            assert(n * pow2(53) < HIGH * d) by (nonlinear_arith)
                requires
                    n < d,
                    pow2(53) == HIGH,
                    HIGH > 0,
            ;
            lemma_exponent_below(n as int, d as int, 53);
        }
        round_to_double(n as u128, d as u128)
    }

    /// `self / y`.
    pub fn over(self, y: Double) -> (r: Double)
        requires
            is_plain(self),
            is_plain(y),
            y.m > 0,
        ensures
            r@ == over(self@, y@),
            is_normal(r@),
            self.m == 0 ==> r.m == 0,
            self.m > 0 ==> r.m > 0 && self.e - y.e - 53 <= r.e <= self.e - y.e - 51,
    {
        if self.m == 0 {
            return Double { m: 0, e: 0 };
        }
        proof {
            lemma2_to64_rest();
            assert(self.m * pow2(52) < HIGH * y.m) by (nonlinear_arith)
                requires
                    self.m < 0x20_0000_0000_0000,
                    y.m >= 0x10_0000_0000_0000,
                    pow2(52) == 0x10_0000_0000_0000,
                    HIGH == 0x20_0000_0000_0000,
            ;
            lemma_exponent_below(self.m as int, y.m as int, 52);
            assert(self.m * pow2(53) >= LOW * y.m) by (nonlinear_arith)
                requires
                    self.m >= 0x10_0000_0000_0000,
                    y.m < 0x20_0000_0000_0000,
                    pow2(53) == 0x20_0000_0000_0000,
                    LOW == 0x10_0000_0000_0000,
            ;
            lemma_exponent_least(self.m as int, y.m as int, 53);
        }
        let q = round_to_double(self.m as u128, y.m as u128);
        Double { m: q.m, e: q.e + (self.e - y.e) }
    }

    /// `self * y`.
    pub fn times(self, y: Double) -> (r: Double)
        requires
            is_plain(self),
            is_plain(y),
        ensures
            r@ == times(self@, y@),
            is_normal(r@),
            r.m > 0 ==> self.e + y.e <= r.e <= self.e + y.e + 54,
            r.m == 0 ==> r.e == 0,
            self.m > 0 && y.m > 0 ==> r.m > 0,
    {
        if self.m == 0 || y.m == 0 {
            return Double { m: 0, e: 0 };
        }
        proof {
            lemma2_to64();
            lemma2_to64_rest();
            lemma_pow2_adds(53, 53);
            assert(self.m * y.m < 0x20_0000_0000_0000 * 0x20_0000_0000_0000) by (nonlinear_arith)
                requires
                    self.m < 0x20_0000_0000_0000,
                    y.m < 0x20_0000_0000_0000,
            ;
            assert(self.m * y.m >= 0x10_0000_0000_0000) by (nonlinear_arith)
                requires
                    self.m >= 0x10_0000_0000_0000,
                    y.m >= 1,
            ;
            lemma_exponent_above(self.m * y.m, 1, 106);
            assert((self.m * y.m) * pow2(0) == self.m * y.m) by (nonlinear_arith)
                requires
                    pow2(0) == 1,
            ;
            lemma_exponent_least(self.m * y.m, 1, 0);
        }
        let q = round_to_double(self.m as u128 * y.m as u128, 1);
        Double { m: q.m, e: q.e + (self.e + y.e) }
    }

    pub fn is_less(self, y: Double) -> (r: bool)
        ensures
            r == less(self@, y@),
    {
        y.m != 0 && (self.m == 0 || self.e < y.e || (self.e == y.e && self.m < y.m))
    }

    /// Whether `part` is more than half of `all`.
    pub fn majority(part: u64, all: u64) -> (r: bool)
        ensures
            r == is_majority(part as int, all as int),
    {
        let x = Double::of(all);
        Double { m: x.m, e: x.e - 1 }.is_less(Double::of(part))
    }

    /// The whole part, or the largest number.
    pub fn truncated(self) -> (r: u64)
        requires
            is_normal(self@),
            -1000 <= self.e <= 60,
        ensures
            r == held(whole(self@)),
    {
        if self.e >= 0 {
            let n = self.shifted();
            if n > u64::MAX as u128 {
                u64::MAX
            } else {
                n as u64
            }
        } else if self.e < -100 {
            proof {
                lemma_large_power((-self.e) as nat);
                assert(self.m as int / pow2((-self.e) as nat) as int == 0) by (nonlinear_arith)
                    requires
                        0 <= self.m < pow2((-self.e) as nat),
                ;
            }
            0
        } else {
            let d = power_of_two((-self.e) as u32);
            proof {
                lemma_small_power((-self.e) as nat);
                assert(self.m as int / d as int <= self.m) by (nonlinear_arith)
                    requires
                        d >= 1,
                        self.m >= 0,
                ;
            }
            (self.m as u128 / d) as u64
        }
    }

    /// The nearest whole number, halves upwards, or the largest number.
    pub fn nearest_whole(self) -> (r: u64)
        requires
            is_normal(self@),
            -1000 <= self.e <= 60,
        ensures
            r == held(rounded(self@)),
    {
        if self.e >= 0 {
            let n = self.shifted();
            if n > u64::MAX as u128 {
                u64::MAX
            } else {
                n as u64
            }
        } else if self.e < -100 {
            proof {
                lemma_large_power((-self.e) as nat);
                let d = pow2((-self.e) as nat) as int;
                assert((2 * self.m + d) / (2 * d) == 0) by (nonlinear_arith)
                    requires
                        0 <= 2 * self.m < d,
                ;
            }
            0
        } else {
            let d = power_of_two((-self.e) as u32);
            proof {
                lemma_small_power((-self.e) as nat);
                assert((2 * self.m + d) / (2 * d as int) <= self.m + 1) by (nonlinear_arith)
                    requires
                        d >= 1,
                        self.m >= 0,
                ;
            }
            ((2 * self.m as u128 + d) / (2 * d)) as u64
        }
    }

    fn shifted(self) -> (r: u128)
        requires
            is_normal(self@),
            0 <= self.e <= 60,
        ensures
            r == self.m * pow2(self.e as nat),
            r < 0x2_0000_0000_0000_0000_0000_0000_0000,
    {
        let d = power_of_two(self.e as u32);
        proof {
            lemma2_to64_rest();
            lemma_pow2_pos(self.e as nat);
            if self.e < 60 {
                lemma_pow2_strictly_increases(self.e as nat, 60);
            }
            assert(self.m * d < 0x20_0000_0000_0000 * 0x1000_0000_0000_0000) by (nonlinear_arith)
                requires
                    self.m < 0x20_0000_0000_0000,
                    0 < d <= 0x1000_0000_0000_0000,
            ;
            assert(0 <= self.m * d) by (nonlinear_arith)
                requires
                    self.m >= 0,
                    d >= 0,
            ;
        }
        self.m as u128 * d
    }

    /// `self * scale` as a whole number.
    fn times_whole(self, scale: u64) -> (r: u128)
        requires
            is_normal(self@),
            -1000 <= self.e <= 60,
            1 <= scale <= 100,
        ensures
            r == scaled(self@, scale as int),
    {
        if self.e >= 0 {
            let n = self.shifted();
            proof {
                assert(n * scale <= 0x2_0000_0000_0000_0000_0000_0000_0000 * 100) by (nonlinear_arith)
                    requires
                        0 <= n <= 0x2_0000_0000_0000_0000_0000_0000_0000,
                        0 <= scale <= 100,
                ;
                assert(0 <= n * scale) by (nonlinear_arith)
                    requires
                        n >= 0,
                        scale >= 0,
                ;
            }
            return n * scale as u128;
        }
        proof {
            assert(0 <= self.m * scale < 0x20_0000_0000_0000 * 100) by (nonlinear_arith)
                requires
                    0 <= self.m < 0x20_0000_0000_0000,
                    1 <= scale <= 100,
            ;
        }
        let n: u128 = self.m as u128 * scale as u128;
        if self.e < -100 {
            proof {
                lemma_large_power((-self.e) as nat);
                let d = pow2((-self.e) as nat) as int;
                assert(n as int / d == 0 && n as int % d == n) by (nonlinear_arith)
                    requires
                        0 <= n < d,
                ;
            }
            return 0;
        }
        let d = power_of_two((-self.e) as u32);
        proof {
            lemma_small_power((-self.e) as nat);
            lemma_half_even(n as int, d as int);
            assert(n as int <= n as int * d as int) by (nonlinear_arith)
                requires
                    n >= 0,
                    d >= 1,
            ;
        }
        let low: u128 = n / d;
        let rest: u128 = n % d;
        if 2 * rest > d || (2 * rest == d && low % 2 == 1) {
            low + 1
        } else {
            low
        }
    }

    /// The number with two digits after the point.
    pub fn with_two_places(self) -> (r: String)
        requires
            is_normal(self@),
            -1000 <= self.e <= 60,
        ensures
            r@ == two_places(self@),
    {
        let q = self.times_whole(100);
        let mut s = text::decimal_wide(q / 100);
        s.push('.');
        s.push(text::digit_char((q / 10 % 10) as u64));
        s.push(text::digit_char((q % 10) as u64));
        proof {
            assert(s@ =~= two_places(self@));
        }
        s
    }

    /// The number with one digit after the point.
    pub fn with_one_place(self) -> (r: String)
        requires
            is_normal(self@),
            -1000 <= self.e <= 60,
        ensures
            r@ == one_place(self@),
    {
        let q = self.times_whole(10);
        let mut s = text::decimal_wide(q / 10);
        s.push('.');
        s.push(text::digit_char((q % 10) as u64));
        proof {
            assert(s@ =~= one_place(self@));
        }
        s
    }

    /// `num / den`; 0 where there is nothing to divide by.
    pub fn share(num: u64, den: u64) -> (r: Double)
        ensures
            r@ == share(num as int, den as int),
            is_normal(r@),
            -117 <= r.e <= 13,
    {
        if den == 0 {
            Double { m: 0, e: 0 }
        } else {
            Double::of(num).over(Double::of(den))
        }
    }

    /// `num / den` in per cent.
    pub fn percentage(num: u64, den: u64) -> (r: Double)
        ensures
            r@ == percentage(num as int, den as int),
            is_normal(r@),
            -200 <= r.e <= 22,
    {
        Double::share(num, den).times(Double::of(100))
    }

    /// `count` over `days` in years of 365.25 days; `count` where there are
    /// none.
    pub fn per_year(count: u64, days: u64) -> (r: Double)
        ensures
            r@ == per_year(count as int, days as int),
            is_normal(r@),
            -200 <= r.e <= 23,
    {
        if days == 0 {
            return Double::of(count);
        }
        proof {
            lemma2_to64_rest();
            assert(1461 * pow2(44) < HIGH * 4) by (nonlinear_arith)
                requires
                    pow2(44) == 0x1000_0000_0000,
                    HIGH == 0x20_0000_0000_0000,
            ;
            lemma_exponent_below(1461, 4, 44);
            assert(1461 * pow2(44) >= LOW * 4) by (nonlinear_arith)
                requires
                    pow2(44) == 0x1000_0000_0000,
                    LOW == 0x10_0000_0000_0000,
            ;
            lemma_exponent_least(1461, 4, 44);
        }
        let years = Double::of(days).over(round_to_double(1461, 4));
        Double::of(count).over(years)
    }
}

} // verus!
