//! Binary64 numbers by their bits, computed on with integers alone.
use vstd::arithmetic::div_mod::*;
use vstd::arithmetic::mul::*;
use vstd::arithmetic::power2::*;
use vstd::prelude::*;

use crate::json::Number;

verus! {

/// Two to the power of 52: one more than the largest fraction field.
pub const FRACTION: u64 = 0x10_0000_0000_0000;

/// Two to the power of 63: the sign bit.
pub const SIGN: u64 = 0x8000_0000_0000_0000;

/// How many of the smallest positive binary64 number make one.
pub open spec fn unit() -> nat {
    pow2(1074)
}

/// The exponent field.
pub open spec fn exponent_field(bits: u64) -> nat {
    ((bits / FRACTION) % 2048) as nat
}

/// The size of a number, counted in the smallest positive one.
pub open spec fn magnitude(bits: u64) -> nat {
    let fraction = (bits % FRACTION) as nat;
    let e = exponent_field(bits);
    if e == 0 {
        fraction
    } else {
        (FRACTION as nat + fraction) * pow2((e - 1) as nat)
    }
}

/// A number, counted in the smallest positive one: its value is this over `unit()`.
pub open spec fn scaled(bits: u64) -> int {
    if bits >= SIGN {
        -(magnitude(bits) as int)
    } else {
        magnitude(bits) as int
    }
}

/// The nearest integer, halves away from zero.
pub open spec fn nearest_integer(bits: u64) -> int {
    let m = magnitude(bits);
    let n = ((2 * m + unit()) / (2 * unit())) as int;
    if bits >= SIGN {
        -n
    } else {
        n
    }
}

/// An integer brought into a range.
pub open spec fn clamped(n: int, low: int, high: int) -> int {
    if n < low {
        low
    } else if n > high {
        high
    } else {
        n
    }
}

/// The nearest whole percentage from 1 to 100.
pub open spec fn percent_of(n: Number) -> int {
    clamped(
        match n {
            Number::PosInt(k) => k as int,
            Number::NegInt(k) => k as int,
            Number::Float(bits) => nearest_integer(bits),
        },
        1,
        100,
    )
}

proof fn lemma_unit_split(e: nat)
    requires
        1 <= e <= 1075,
    ensures
        unit() == pow2((e - 1) as nat) * pow2((1075 - e) as nat),
        pow2((e - 1) as nat) > 0,
        pow2((1075 - e) as nat) > 0,
{
    lemma_pow2_adds((e - 1) as nat, (1075 - e) as nat);
    lemma_pow2_pos((e - 1) as nat);
    lemma_pow2_pos((1075 - e) as nat);
}

/// A common factor of both sides of a division falls away.
proof fn lemma_cancel(a: int, b: int, c: int)
    requires
        b > 0,
        c > 0,
        a >= 0,
    ensures
        (a * c) / (b * c) == a / b,
{
    lemma_div_denominator(a * c, c, b);
    lemma_mul_is_commutative(b, c);
    lemma_mul_is_commutative(a, c);
    lemma_div_multiples_vanish(a, c);
}

/// The nearest integer of a number between a half and two to the power of 52.
proof fn lemma_nearest_in_range(bits: u64)
    requires
        bits < SIGN,
        1 <= exponent_field(bits) <= 1075,
    ensures
        ({
            let m = FRACTION + bits % FRACTION;
            let s = pow2((1075 - exponent_field(bits)) as nat);
            nearest_integer(bits) == (2 * m + s) / (2 * (s as int))
        }),
{
    let e = exponent_field(bits);
    let m = FRACTION + bits % FRACTION;
    let p = pow2((e - 1) as nat) as int;
    let s = pow2((1075 - e) as nat) as int;
    lemma_unit_split(e);
    assert(2 * (m * p) + p * s == (2 * m + s) * p) by (nonlinear_arith);
    assert(2 * (p * s) == (2 * s) * p) by (nonlinear_arith);
    lemma_cancel(2 * m + s, 2 * s, p);
}

proof fn lemma_below_one(bits: u64)
    requires
        bits < SIGN,
        exponent_field(bits) < 1023,
    ensures
        nearest_integer(bits) <= 1,
{
    let e = exponent_field(bits);
    let f = (bits % FRACTION) as int;
    let u = unit() as int;
    lemma_pow2_pos(1074);
    lemma2_to64_rest();
    assert(magnitude(bits) < u) by {
        if e == 0 {
            lemma_pow2_strictly_increases(52, 1074);
        } else {
            let p = pow2((e - 1) as nat) as int;
            lemma_pow2_pos((e - 1) as nat);
            assert((FRACTION + f) * p < 2 * FRACTION * p) by (nonlinear_arith)
                requires
                    f < FRACTION,
                    p > 0,
            ;
            lemma_pow2_adds(53, (e - 1) as nat);
            assert(2 * FRACTION * p == pow2(53) * p);
            if e < 1022 {
                lemma_pow2_strictly_increases((53 + e - 1) as nat, 1074);
            }
        }
    }
    let m = magnitude(bits) as int;
    assert((2 * m + u) / (2 * u) <= 1) by (nonlinear_arith)
        requires
            0 <= m < u,
    ;
}

proof fn lemma_at_least_hundred(bits: u64)
    requires
        bits < SIGN,
        exponent_field(bits) >= 1030,
    ensures
        nearest_integer(bits) >= 100,
{
    let e = exponent_field(bits);
    let f = (bits % FRACTION) as int;
    let u = unit() as int;
    let p = pow2((e - 1) as nat) as int;
    lemma_pow2_pos(1074);
    lemma_pow2_pos((e - 1) as nat);
    lemma2_to64_rest();
    lemma_pow2_adds(52, (e - 1) as nat);
    lemma_pow2_adds(7, 1074);
    lemma2_to64();
    if e > 1030 {
        lemma_pow2_strictly_increases(1081, (52 + e - 1) as nat);
    }
    assert((FRACTION + f) * p >= FRACTION * p) by (nonlinear_arith)
        requires
            f >= 0,
            p > 0,
    ;
    assert(magnitude(bits) >= 128 * u);
    let m = magnitude(bits) as int;
    assert((2 * m + u) / (2 * u) >= 100) by (nonlinear_arith)
        requires
            m >= 128 * u,
            u > 0,
    ;
}

/// The nearest whole percentage from 1 to 100.
pub fn percent(n: Number) -> (r: u64)
    ensures
        r == percent_of(n),
        1 <= r <= 100,
{
    match n {
        Number::PosInt(k) => if k < 1 {
            1
        } else if k > 100 {
            100
        } else {
            k
        },
        Number::NegInt(k) => if k < 1 {
            1
        } else if k > 100 {
            100
        } else {
            k as u64
        },
        Number::Float(bits) => {
            if bits >= SIGN {
                proof {
                    lemma_pow2_pos(1074);
                    lemma_div_pos_is_pos(2 * magnitude(bits) as int + unit() as int, 2 * unit() as int);
                }
                return 1;
            }
            let e: u64 = (bits / FRACTION) % 2048;
            if e < 1023 {
                proof {
                    lemma_below_one(bits);
                }
                return 1;
            }
            if e >= 1030 {
                proof {
                    lemma_at_least_hundred(bits);
                }
                return 100;
            }
            proof {
                lemma_nearest_in_range(bits);
                lemma2_to64_rest();
            }
            let m: u64 = FRACTION + bits % FRACTION;
            let s: u64 = if e == 1023 {
                0x10_0000_0000_0000
            } else if e == 1024 {
                0x8_0000_0000_0000
            } else if e == 1025 {
                0x4_0000_0000_0000
            } else if e == 1026 {
                0x2_0000_0000_0000
            } else if e == 1027 {
                0x1_0000_0000_0000
            } else if e == 1028 {
                0x8000_0000_0000
            } else {
                0x4000_0000_0000
            };
            assert(s == pow2((1075 - e) as nat));
            let r: u64 = (2 * m + s) / (2 * s);
            if r < 1 {
                1
            } else if r > 100 {
                100
            } else {
                r
            }
        },
    }
}

/// The place of the highest bit of a number that is not zero.
pub open spec fn top_bit(n: nat) -> nat
    decreases n,
{
    if n < 2 {
        0
    } else {
        1 + top_bit(n / 2)
    }
}

/// A small integer as a binary64 number.
pub open spec fn whole(n: u8) -> Number {
    if n == 0 {
        Number::Float(0)
    } else {
        let k = top_bit(n as nat);
        Number::Float(
            ((1023 + k) * FRACTION + (n - pow2(k)) * pow2((52 - k) as nat)) as u64,
        )
    }
}

/// A small integer as a binary64 number.
pub fn whole_number(n: u8) -> (r: Number)
    ensures
        r == whole(n),
{
    if n == 0 {
        return Number::Float(0);
    }
    proof {
        reveal_with_fuel(top_bit, 9);
        lemma2_to64();
        lemma2_to64_rest();
    }
    let m: u64 = n as u64;
    let (k, p, q): (u64, u64, u64) = if m < 2 {
        (0, 1, 0x10_0000_0000_0000)
    } else if m < 4 {
        (1, 2, 0x8_0000_0000_0000)
    } else if m < 8 {
        (2, 4, 0x4_0000_0000_0000)
    } else if m < 16 {
        (3, 8, 0x2_0000_0000_0000)
    } else if m < 32 {
        (4, 16, 0x1_0000_0000_0000)
    } else if m < 64 {
        (5, 32, 0x8000_0000_0000)
    } else if m < 128 {
        (6, 64, 0x4000_0000_0000)
    } else {
        (7, 128, 0x2000_0000_0000)
    };
    assert(k == top_bit(n as nat) && p == pow2(k as nat) && q == pow2((52 - k) as nat));
    proof {
        lemma_mul_upper_bound(m - p, 127, q as int, 0x10_0000_0000_0000);
        lemma_mul_nonnegative(m - p, q as int);
    }
    Number::Float((1023 + k) * FRACTION + (m - p) * q)
}

/// A small integer keeps its value as a binary64 number.
pub proof fn law_whole_keeps_value(n: u8)
    ensures
        whole(n) is Float,
        scaled(whole(n)->Float_0) == n * unit(),
{
    lemma2_to64();
    lemma2_to64_rest();
    if n > 0 {
        reveal_with_fuel(top_bit, 9);
        let k = top_bit(n as nat);
        let bits = whole(n)->Float_0;
        let q = pow2((52 - k) as nat) as int;
        let f = (n - pow2(k)) * q;
        lemma_pow2_adds(k, (52 - k) as nat);
        assert(pow2(k) <= n < 2 * pow2(k));
        assert(0 <= f < pow2(k) * q) by (nonlinear_arith)
            requires
                f == (n - pow2(k)) * q,
                pow2(k) <= n < 2 * pow2(k),
                q > 0,
        ;
        assert(bits == (1023 + k) * FRACTION + f);
        assert(bits / FRACTION == 1023 + k && bits % FRACTION == f) by {
            lemma_fundamental_div_mod_converse(bits as int, FRACTION as int, 1023 + k as int, f);
        }
        assert(exponent_field(bits) == 1023 + k);
        let p = pow2((1022 + k) as nat) as int;
        assert(FRACTION + f == n * q) by {
            assert(pow2(k) * q == FRACTION);
            assert((n - pow2(k)) * q == n * q - pow2(k) * q) by (nonlinear_arith);
        }
        lemma_pow2_adds((52 - k) as nat, (1022 + k) as nat);
        assert(n * q * p == n * (q * p)) by (nonlinear_arith);
    } else {
        assert(scaled(0) == 0);
        assert(0 * unit() == 0);
    }
}

/// The integer nearest to a quotient, an even one where two are.
pub open spec fn nearest_even(a: nat, b: nat) -> nat {
    let q = a / b;
    let r = a % b;
    if 2 * r < b || (2 * r == b && q % 2 == 0) {
        q
    } else {
        q + 1
    }
}

/// How often the dividend is doubled before the quotient has 53 bits.
pub open spec fn doublings(a: nat, b: nat) -> nat
    decreases 0x20_0000_0000_0000 * b - a,
{
    if a == 0 || b == 0 || a >= 0x10_0000_0000_0000 * b {
        0
    } else {
        1 + doublings(2 * a, b)
    }
}

/// A quotient as binary64 arithmetic gives it, to 53 bits, then brought to the nearest integer,
/// halves away from zero; for quotients below two to the power of 53.
pub open spec fn rounded_quotient(a: nat, b: nat) -> nat {
    let scale = pow2(doublings(a, b));
    (2 * nearest_even(a * scale, b) + scale) / (2 * scale)
}

/// The kelvin of a number of mireds: a million over it, brought to the nearest integer.
/// Nothing for a number that is not positive.
pub open spec fn kelvin_of(n: Number) -> Option<u32> {
    match n {
        Number::PosInt(m) => if m == 0 {
            None
        } else {
            Some(((2_000_000 + m) / (2 * m as int)) as u32)
        },
        Number::NegInt(_) => None,
        Number::Float(bits) => if scaled(bits) <= 0 {
            None
        } else {
            let a = 1_000_000 * unit();
            let b = magnitude(bits);
            if a >= 0x20_0000_0000_0000 * b || rounded_quotient(a, b) > u32::MAX {
                Some(u32::MAX)
            } else {
                Some(rounded_quotient(a, b) as u32)
            }
        },
    }
}

proof fn lemma_doublings_unique(a: nat, b: nat, k: nat)
    requires
        a > 0,
        b > 0,
        0x10_0000_0000_0000 * b <= a * pow2(k) < 0x20_0000_0000_0000 * b,
    ensures
        doublings(a, b) == k,
    decreases k,
{
    lemma2_to64();
    lemma_pow2_pos(k);
    if k == 0 {
        lemma_mul_basics(a as int);
    } else {
        lemma_pow2_unfold(k);
        let h = pow2((k - 1) as nat);
        lemma_pow2_pos((k - 1) as nat);
        assert(a * (2 * h) == 2 * a * h) by (nonlinear_arith);
        assert(a <= a * h) by (nonlinear_arith)
            requires
                a > 0,
                h > 0,
        ;
        assert(2 * (a * h) == 2 * a * h) by (nonlinear_arith);
        assert(a < 0x10_0000_0000_0000 * b);
        lemma_doublings_unique(2 * a, b, (k - 1) as nat);
    }
}

proof fn lemma_doublings_reach(a: nat, b: nat)
    requires
        a > 0,
        b > 0,
        a < 0x20_0000_0000_0000 * b,
    ensures
        0x10_0000_0000_0000 * b <= a * pow2(doublings(a, b)) < 0x20_0000_0000_0000 * b,
    decreases 0x20_0000_0000_0000 * b - a,
{
    lemma2_to64();
    if a >= 0x10_0000_0000_0000 * b {
        assert(a * pow2(0) == a);
    } else {
        lemma_doublings_reach(2 * a, b);
        let k = doublings(2 * a, b);
        lemma_pow2_unfold(k + 1);
        let h = pow2(k);
        assert(a * (2 * h) == 2 * a * h) by (nonlinear_arith);
    }
}

proof fn lemma_nearest_even_cancel(a: nat, b: nat, c: nat)
    requires
        b > 0,
        c > 0,
    ensures
        nearest_even(a * c, b * c) == nearest_even(a, b),
{
    lemma_cancel(a as int, b as int, c as int);
    let q = a / b;
    let r = a % b;
    lemma_fundamental_div_mod(a as int, b as int);
    assert(b * c > 0) by (nonlinear_arith)
        requires
            b > 0,
            c > 0,
    ;
    lemma_fundamental_div_mod((a * c) as int, (b * c) as int);
    assert((a * c) % (b * c) == r * c) by {
        assert(a * c == (b * c) * q + r * c) by (nonlinear_arith)
            requires
                a == b * q + r,
        ;
    }
    assert(2 * (r * c) < b * c <==> 2 * r < b) by (nonlinear_arith)
        requires
            c > 0,
    ;
    assert(2 * (r * c) == b * c <==> 2 * r == b) by (nonlinear_arith)
        requires
            c > 0,
    ;
}

/// The nearest integer is within one of the quotient.
proof fn lemma_nearest_even_bounds(a: nat, b: nat)
    requires
        b > 0,
    ensures
        a / b <= nearest_even(a, b) <= a / b + 1,
{
}

/// Quotients of at least two to the power of 32 come out no smaller.
proof fn lemma_quotient_large(a: nat, b: nat)
    requires
        b > 0,
        0x1_0000_0000 * b <= a < 0x20_0000_0000_0000 * b,
    ensures
        rounded_quotient(a, b) > u32::MAX,
{
    assert(a > 0) by (nonlinear_arith)
        requires
            b > 0,
            0x1_0000_0000 * b <= a,
    ;
    let p = pow2(doublings(a, b));
    lemma_pow2_pos(doublings(a, b));
    lemma_nearest_even_bounds(a * p, b);
    let n = nearest_even(a * p, b);
    assert((a * p) / b >= 0x1_0000_0000 * p) by (nonlinear_arith)
        requires
            0x1_0000_0000 * b <= a,
            b > 0,
            p > 0,
    ;
    assert((2 * n + p) / (2 * p) >= 0x1_0000_0000) by (nonlinear_arith)
        requires
            n >= 0x1_0000_0000 * p,
            p > 0,
    ;
}

/// Quotients of at most a quarter come out as nothing.
proof fn lemma_quotient_small(a: nat, b: nat)
    requires
        b > 0,
        0 < a,
        4 * a <= b,
    ensures
        rounded_quotient(a, b) == 0,
{
    assert(a < 0x20_0000_0000_0000 * b) by (nonlinear_arith)
        requires
            4 * a <= b,
            b > 0,
    ;
    lemma_doublings_reach(a, b);
    let p = pow2(doublings(a, b));
    lemma_pow2_pos(doublings(a, b));
    lemma_nearest_even_bounds(a * p, b);
    let n = nearest_even(a * p, b);
    let x = (a * p) as int;
    assert(p >= 0x40_0000_0000_0000) by (nonlinear_arith)
        requires
            0x10_0000_0000_0000 * b <= a * p,
            4 * a <= b,
            a > 0,
            b > 0,
    ;
    assert(4 * x <= b * p) by (nonlinear_arith)
        requires
            x == a * p,
            4 * a <= b,
            p > 0,
    ;
    assert(4 * (x / b as int) <= p) by (nonlinear_arith)
        requires
            4 * x <= b * p,
            b > 0,
            x >= 0,
    ;
    assert(2 * n + p < 2 * p);
    lemma_basic_div((2 * n + p) as int, (2 * p) as int);
}

proof fn lemma_rounded_quotient_is_near(a: nat, b: nat)
    requires
        0 < a < 0x20_0000_0000_0000 * b,
        b > 0,
    ensures
        ({
            let r = rounded_quotient(a, b) as int;
            &&& -(b as int) <= r * b - a <= b
            &&& r <= u32::MAX ==> -1001 * b <= 2000 * (r * b - a) <= 1001 * b
        }),
{
    lemma2_to64();
    lemma_doublings_reach(a, b);
    let s = pow2(doublings(a, b)) as int;
    lemma_pow2_pos(doublings(a, b));
    let (x, y) = (a as int, b as int);
    let t = x * s;
    let n = nearest_even((a * pow2(doublings(a, b))) as nat, b) as int;
    let r = rounded_quotient(a, b) as int;
    lemma_fundamental_div_mod(t, y);
    let (q, rest) = (t / y, t % y);
    assert(n * y == q * y + (n - q) * y) by (nonlinear_arith);
    assert(y * q == q * y) by (nonlinear_arith);
    assert(n == q || n == q + 1);
    assert(-y <= 2 * (n * y) - 2 * t <= y) by (nonlinear_arith)
        requires
            t == q * y + rest,
            0 <= rest < y,
            n == q && 2 * rest <= y || n == q + 1 && 2 * rest >= y,
    ;
    lemma_fundamental_div_mod(2 * n + s, 2 * s);
    let left = (2 * n + s) % (2 * s);
    assert((2 * s) * r == 2 * (r * s)) by (nonlinear_arith);
    let d = r * s - n;
    assert(-s <= 2 * d <= s);
    let gap = r * y - x;
    assert(gap * s == d * y + (n * y - t)) by (nonlinear_arith)
        requires
            gap == r * y - x,
            d == r * s - n,
            t == x * s,
    ;
    assert(-(s * y) <= 2 * (d * y) <= s * y) by (nonlinear_arith)
        requires
            -s <= 2 * d <= s,
            y > 0,
    ;
    assert(-(s * y) - y <= 2 * (gap * s) <= s * y + y);
    assert(-y <= gap <= y) by (nonlinear_arith)
        requires
            -(s * y) - y <= 2 * (gap * s) <= s * y + y,
            s >= 1,
            y > 0,
    ;
    if r <= u32::MAX {
        assert(q >= 0x10_0000_0000_0000) by (nonlinear_arith)
            requires
                0x10_0000_0000_0000 * y <= t,
                t == q * y + rest,
                0 <= rest < y,
                y > 0,
        ;
        assert(s > 1000) by (nonlinear_arith)
            requires
                n >= 0x10_0000_0000_0000,
                2 * n + s < 2 * (r * s) + 2 * s,
                r <= 0xffff_ffff,
                s >= 1,
        ;
        assert(-1001 * y <= 2000 * gap <= 1001 * y) by (nonlinear_arith)
            requires
                -(s * y) - y <= 2 * (gap * s) <= s * y + y,
                s > 1000,
                y > 0,
        ;
    }
}

/// The kelvin of a number of mireds in binary are next to a million over it: within half of one,
/// but for a thousandth, as far as they go; and beyond that, as many as there can be.
pub proof fn law_kelvin_are_next_to_a_million_over_mireds(bits: u64)
    requires
        scaled(bits) > 0,
    ensures
        kelvin_of(Number::Float(bits)) matches Some(kelvin) && {
            let (m, million) = (scaled(bits), 1_000_000 * unit());
            &&& kelvin < u32::MAX ==> -1001 * m <= 2000 * (kelvin * m - million) <= 1001 * m
            &&& kelvin == u32::MAX ==> (u32::MAX - 1) * m <= million
        },
{
    let a = 1_000_000 * unit();
    let b = magnitude(bits);
    lemma_pow2_pos(1074);
    if a < 0x20_0000_0000_0000 * b {
        lemma_rounded_quotient_is_near(a, b);
        let r = rounded_quotient(a, b) as int;
        if r >= u32::MAX {
            assert((u32::MAX - 1) * b <= a) by (nonlinear_arith)
                requires
                    r * b - a <= b,
                    r >= 0xffff_ffff,
                    b > 0,
            ;
        }
    } else {
        assert((u32::MAX - 1) * b <= a) by (nonlinear_arith)
            requires
                a >= 0x20_0000_0000_0000 * b,
                b > 0,
        ;
    }
}

/// The kelvin of a number of mireds: a million over it, brought to the nearest integer.
pub fn kelvin(n: Number) -> (r: Option<u32>)
    ensures
        r == kelvin_of(n),
{
    match n {
        Number::PosInt(m) => {
            if m == 0 {
                return None;
            }
            if m > 2_000_000 {
                proof {
                    lemma_basic_div(2_000_000 + m, 2 * m as int);
                }
                return Some(0);
            }
            assert((2_000_000 + m) / (2 * m as int) <= 2_000_001) by (nonlinear_arith)
                requires
                    m > 0,
            ;
            Some(((2_000_000 + m) / (2 * m)) as u32)
        },
        Number::NegInt(_) => None,
        Number::Float(bits) => kelvin_of_bits(bits),
    }
}

/// Fewer than about a thousandth of a mired: the kelvin are out of range.
proof fn lemma_few_mireds(bits: u64)
    requires
        bits < SIGN,
        1 <= exponent_field(bits) <= 1009,
    ensures
        kelvin_of(Number::Float(bits)) == Some(u32::MAX),
{
    let e = exponent_field(bits);
    let m = (FRACTION + bits % FRACTION) as nat;
    let p = pow2((e - 1) as nat);
    let t = pow2((1075 - e) as nat);
    let a = 1_000_000 * unit();
    let b = magnitude(bits);
    lemma_unit_split(e);
    lemma2_to64();
    lemma2_to64_rest();
    lemma_pow2_adds(64, 2);
    if 1075 - e > 66 {
        lemma_pow2_strictly_increases(66, (1075 - e) as nat);
    }
    assert(b > 0) by (nonlinear_arith)
        requires
            b == m * p,
            m > 0,
            p > 0,
    ;
    assert(0x1_0000_0000 * (m * p) <= 1_000_000 * (p * t)) by (nonlinear_arith)
        requires
            m < 0x20_0000_0000_0000,
            t >= 4 * 0x1_0000_0000_0000_0000,
            p > 0,
    ;
    if a < 0x20_0000_0000_0000 * b {
        lemma_quotient_large(a, b);
    }
}

/// More than about four million mireds: the kelvin are next to nothing.
proof fn lemma_many_mireds(bits: u64)
    requires
        bits < SIGN,
        1045 <= exponent_field(bits),
    ensures
        kelvin_of(Number::Float(bits)) == Some(0u32),
{
    let e = exponent_field(bits);
    let m = (FRACTION + bits % FRACTION) as nat;
    let p = pow2((e - 1) as nat);
    let a = 1_000_000 * unit();
    let b = magnitude(bits);
    lemma_pow2_adds(1044, 30);
    lemma_pow2_pos(1044);
    lemma_pow2_pos(1074);
    lemma2_to64();
    if e - 1 > 1044 {
        lemma_pow2_strictly_increases(1044, (e - 1) as nat);
    }
    let base = pow2(1044);
    assert(4 * (1_000_000 * (base * 0x4000_0000)) <= m * p) by (nonlinear_arith)
        requires
            m >= FRACTION,
            p >= base,
            base > 0,
    ;
    lemma_quotient_small(a, b);
    assert(a < 0x20_0000_0000_0000 * b) by (nonlinear_arith)
        requires
            4 * a <= b,
            b > 0,
    ;
}

/// Between those two, the quotient comes from the leading bits alone.
proof fn lemma_mireds(bits: u64, top: nat, s: nat)
    requires
        bits < SIGN,
        1010 <= exponent_field(bits) <= 1044,
        85 <= s <= 86,
        top == 1_000_000 * pow2(s),
        ({
            let m = FRACTION + bits % FRACTION;
            0x10_0000_0000_0000 * m <= top < 0x20_0000_0000_0000 * m
        }),
    ensures
        ({
            let m = (FRACTION + bits % FRACTION) as nat;
            let scale = pow2((s + exponent_field(bits) - 1075) as nat);
            let r = (2 * nearest_even(top, m) + scale) / (2 * scale);
            kelvin_of(Number::Float(bits)) == Some(if r > u32::MAX { u32::MAX } else { r as u32 })
        }),
{
    let e = exponent_field(bits);
    let m = (FRACTION + bits % FRACTION) as nat;
    let p = pow2((e - 1) as nat);
    let t = pow2((1075 - e) as nat);
    let k = (s + e - 1075) as nat;
    let scale = pow2(k);
    let a = 1_000_000 * unit();
    let b = magnitude(bits);
    lemma_unit_split(e);
    lemma_pow2_pos(k);
    lemma_pow2_adds((1075 - e) as nat, k);
    assert(t * scale == pow2(s));
    assert(b > 0) by (nonlinear_arith)
        requires
            b == m * p,
            m > 0,
            p > 0,
    ;
    assert(a * scale == top * p) by (nonlinear_arith)
        requires
            a == 1_000_000 * (p * t),
            t * scale == pow2(s),
            top == 1_000_000 * pow2(s),
    ;
    assert(0x10_0000_0000_0000 * (m * p) <= top * p < 0x20_0000_0000_0000 * (m * p)) by (nonlinear_arith)
        requires
            0x10_0000_0000_0000 * m <= top < 0x20_0000_0000_0000 * m,
            p > 0,
    ;
    assert(a > 0) by (nonlinear_arith)
        requires
            a == 1_000_000 * (p * t),
            p > 0,
            t > 0,
    ;
    lemma_doublings_unique(a, b, k);
    lemma_nearest_even_cancel(top, m, p);
    assert(a <= a * scale) by (nonlinear_arith)
        requires
            scale > 0,
            a > 0,
    ;
}

/// Two to a small power.
fn power(k: u64) -> (r: u128)
    requires
        k <= 100,
    ensures
        r == pow2(k as nat),
{
    let mut r: u128 = 1;
    let mut i: u64 = 0;
    proof {
        lemma2_to64();
    }
    while i < k
        invariant
            i <= k <= 100,
            r == pow2(i as nat),
        decreases k - i,
    {
        proof {
            lemma_pow2_unfold((i + 1) as nat);
            lemma_pow2_strictly_increases(i as nat, 100);
            lemma_pow2_adds(64, 36);
            lemma2_to64();
            lemma2_to64_rest();
        }
        r = 2 * r;
        i += 1;
    }
    r
}

fn kelvin_of_bits(bits: u64) -> (r: Option<u32>)
    ensures
        r == kelvin_of(Number::Float(bits)),
{
    if bits >= SIGN || bits == 0 {
        return None;
    }
    let e: u64 = (bits / FRACTION) % 2048;
    let ghost a = 1_000_000 * unit();
    let ghost b = magnitude(bits);
    proof {
        lemma2_to64();
        lemma2_to64_rest();
        lemma_pow2_pos(1074);
    }
    if e == 0 {
        proof {
            assert(bits / FRACTION < 2048);
            assert(b == bits);
            lemma_pow2_adds(106, 968);
            lemma_pow2_adds(53, 53);
            lemma_pow2_pos(968);
            let x = pow2(106);
            let y = pow2(968);
            assert(1_000_000 * (x * y) >= x) by (nonlinear_arith)
                requires
                    y > 0,
                    x > 0,
            ;
            assert(0x20_0000_0000_0000 * b <= pow2(53) * pow2(53));
        }
        return Some(u32::MAX);
    }
    if e <= 1009 {
        proof {
            lemma_few_mireds(bits);
        }
        return Some(u32::MAX);
    }
    if e >= 1045 {
        proof {
            lemma_many_mireds(bits);
        }
        return Some(0);
    }
    let m: u64 = FRACTION + bits % FRACTION;
    let den: u128 = m as u128;
    proof {
        lemma_pow2_adds(64, 21);
        lemma2_to64();
    }
    let wide: u128 = 1_000_000 * power(85);
    let doubled: bool = wide < 0x10_0000_0000_0000 * den;
    let top: u128 = if doubled {
        2 * wide
    } else {
        wide
    };
    let s: u64 = if doubled {
        86
    } else {
        85
    };
    let q: u128 = top / den;
    let rest: u128 = top % den;
    let n: u128 = if 2 * rest < den || (2 * rest == den && q % 2 == 0) {
        q
    } else {
        q + 1
    };
    assert(n == nearest_even(top as nat, m as nat));
    proof {
        lemma_pow2_unfold(86);
        lemma_mireds(bits, top as nat, s as nat);
        assert(top / den < 2 * FRACTION) by (nonlinear_arith)
            requires
                top < 0x20_0000_0000_0000 * den,
                den > 0,
        ;
    }
    let scale: u128 = power(s + e - 1075);
    let r: u128 = (2 * n + scale) / (2 * scale);
    if r > u32::MAX as u128 {
        Some(u32::MAX)
    } else {
        Some(r as u32)
    }
}

} // verus!
