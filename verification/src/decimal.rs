//! Binary64 numbers written out in decimal, exactly.
use vstd::arithmetic::mul::*;
use vstd::arithmetic::power::*;
use vstd::arithmetic::power2::*;
use vstd::prelude::*;
use vstd::string::*;

use crate::binary::{exponent_field, magnitude, unit, FRACTION, SIGN};
use crate::text::{decimal, decimal_text, digit_text};

verus! {

/// The fraction of a number, with the leading bit that is not written where it has one.
pub open spec fn significand(bits: u64) -> nat {
    if exponent_field(bits) == 0 {
        (bits % FRACTION) as nat
    } else {
        (FRACTION + bits % FRACTION) as nat
    }
}

/// How many decimal places a number is written out to.
pub open spec fn places(bits: u64) -> nat {
    let e = exponent_field(bits);
    if e == 0 {
        1074
    } else if e < 1075 {
        (1075 - e) as nat
    } else {
        0
    }
}

/// The digits of a number as an integer, the decimal point left out.
pub open spec fn all_digits(bits: u64) -> nat {
    let e = exponent_field(bits);
    if e < 1075 {
        significand(bits) * pow(5, places(bits)) as nat
    } else {
        significand(bits) * pow2((e - 1075) as nat)
    }
}

/// A number written out in decimal, exactly. Nothing for what is no number or infinite.
pub open spec fn exact_decimal(bits: u64) -> Seq<char> {
    if exponent_field(bits) == 2047 {
        ""@
    } else {
        (if bits >= SIGN {
            "-"@
        } else {
            ""@
        }) + decimal(all_digits(bits)) + "e-"@ + decimal(places(bits))
    }
}

/// A number written out in decimal keeps its value: its digits over the power of ten are its
/// magnitude over the unit.
pub proof fn law_exact_decimal_keeps_value(bits: u64)
    requires
        exponent_field(bits) != 2047,
    ensures
        all_digits(bits) * unit() == magnitude(bits) * pow(10, places(bits)),
{
    let e = exponent_field(bits);
    let m = significand(bits) as int;
    let k = places(bits);
    lemma_pow_positive(5, k);
    lemma_pow_distributes(2, 5, k);
    lemma_pow2(k);
    let five = pow(5, k);
    let two = pow2(k) as int;
    assert(pow(10, k) == two * five);
    if e == 0 {
        assert(magnitude(bits) == m);
        assert((m * five) * two == m * (two * five)) by (nonlinear_arith);
    } else if e < 1075 {
        let p = pow2((e - 1) as nat) as int;
        lemma_pow2_adds((e - 1) as nat, k);
        assert(unit() == p * two);
        assert((m * five) * (p * two) == (m * p) * (two * five)) by (nonlinear_arith);
    } else {
        let p = pow2((e - 1075) as nat) as int;
        lemma_pow2_adds((e - 1075) as nat, 1074);
        assert(pow2((e - 1) as nat) == p * unit());
        lemma_pow0(10);
        let u = unit() as int;
        assert((m * p) * u == (m * (p * u)) * 1) by (nonlinear_arith);
    }
}

/// The number that decimal digits stand for, the lowest first.
pub open spec fn value(d: Seq<u8>) -> nat
    decreases d.len(),
{
    if d.len() == 0 {
        0
    } else {
        d[0] as nat + 10 * value(d.drop_first())
    }
}

/// Decimal digits, with none but the only one nought at the high end.
pub open spec fn written_out(d: Seq<u8>) -> bool {
    &&& d.len() > 0
    &&& forall|i: int| 0 <= i < d.len() ==> #[trigger] d[i] < 10
    &&& d.len() > 1 ==> d.last() > 0
}

proof fn lemma_value_push(d: Seq<u8>, x: u8)
    ensures
        value(d.push(x)) == value(d) + x * pow(10, d.len()),
    decreases d.len(),
{
    lemma_pow0(10);
    if d.len() == 0 {
        assert(d.push(x).drop_first() =~= Seq::empty());
        assert(value(d.push(x).drop_first()) == 0);
        assert(x * pow(10, 0) == x) by (nonlinear_arith)
            requires
                pow(10, 0) == 1,
        ;
    } else {
        let n = (d.len() - 1) as nat;
        assert(d.push(x).drop_first() =~= d.drop_first().push(x));
        lemma_value_push(d.drop_first(), x);
        reveal(pow);
        assert(pow(10, d.len()) == 10 * pow(10, n));
        assert(10 * (x * pow(10, n)) == x * (10 * pow(10, n))) by (nonlinear_arith);
    }
}

fn digits_from(n: u64) -> (r: Vec<u8>)
    ensures
        written_out(r@),
        value(r@) == n,
{
    let mut out: Vec<u8> = Vec::new();
    let mut rest: u64 = n;
    proof {
        lemma_pow0(10);
        assert(rest * pow(10, 0) == rest) by (nonlinear_arith)
            requires
                pow(10, 0) == 1,
        ;
    }
    while rest >= 10
        invariant
            value(out@) + rest * pow(10, out@.len()) == n,
            forall|i: int| 0 <= i < out@.len() ==> #[trigger] out@[i] < 10,
            out@.len() > 0 ==> rest > 0,
        decreases rest,
    {
        let low: u8 = (rest % 10) as u8;
        proof {
            let p = pow(10, out@.len());
            let (q, x) = ((rest / 10) as int, low as int);
            lemma_value_push(out@, low);
            reveal(pow);
            assert(pow(10, out@.len() + 1) == 10 * p);
            assert(x * p + q * (10 * p) == rest * p) by (nonlinear_arith)
                requires
                    rest == 10 * q + x,
            ;
        }
        out.push(low);
        rest = rest / 10;
    }
    proof {
        lemma_value_push(out@, rest as u8);
    }
    out.push(rest as u8);
    out
}

fn scaled_by(d: &Vec<u8>, by: u8) -> (r: Vec<u8>)
    requires
        written_out(d@),
        1 <= by <= 9,
    ensures
        written_out(r@),
        value(r@) == by * value(d@),
{
    let mut out: Vec<u8> = Vec::new();
    let mut carry: u8 = 0;
    let mut i: usize = 0;
    assert(value(d@.take(0)) == 0);
    assert(by * 0 == 0 && 0 * pow(10, 0) == 0);
    while i < d.len()
        invariant
            i <= d.len(),
            i == out.len(),
            written_out(d@),
            1 <= by <= 9,
            carry < 10,
            value(out@) + carry * pow(10, i as nat) == by * value(d@.take(i as int)),
            forall|k: int| 0 <= k < i ==> #[trigger] out@[k] < 10,
            i == d.len() && d.len() > 1 ==> carry > 0 || out@.last() > 0,
        decreases d.len() - i,
    {
        let x: u8 = d[i];
        assert(0 <= by * x <= 81) by (nonlinear_arith)
            requires
                1 <= by <= 9,
                x < 10,
        ;
        let sum: u8 = by * x + carry;
        proof {
            let p = pow(10, i as nat);
            let v = value(d@.take(i as int)) as int;
            let (low, high) = ((sum % 10) as int, (sum / 10) as int);
            lemma_value_push(out@, (sum % 10) as u8);
            lemma_value_push(d@.take(i as int), x);
            assert(d@.take(i + 1) =~= d@.take(i as int).push(x));
            reveal(pow);
            assert(pow(10, (i + 1) as nat) == 10 * p);
            assert(low * p + high * (10 * p) == (by * x) * p + carry * p) by (nonlinear_arith)
                requires
                    low + 10 * high == by * x + carry,
            ;
            assert(by * (v + x * p) == by * v + (by * x) * p) by (nonlinear_arith);
            assert(x > 0 ==> by * x > 0) by (nonlinear_arith)
                requires
                    by >= 1,
            ;
        }
        out.push(sum % 10);
        carry = sum / 10;
        i += 1;
    }
    assert(d@.take(i as int) =~= d@);
    if carry > 0 {
        proof {
            lemma_value_push(out@, carry);
        }
        out.push(carry);
    }
    out
}

fn write_out(d: &Vec<u8>) -> (r: String)
    requires
        written_out(d@),
    ensures
        r@ == decimal(value(d@)),
{
    let mut i: usize = d.len() - 1;
    let mut out = digit_text(d[i] as u64).to_owned();
    proof {
        let top = d@.skip(i as int);
        assert(top.drop_first() =~= Seq::empty());
        assert(value(top.drop_first()) == 0);
        assert(value(top) == d@[i as int]);
    }
    while i > 0
        invariant
            i < d.len(),
            written_out(d@),
            value(d@.skip(i as int)) > 0 || i == 0,
            out@ == decimal(value(d@.skip(i as int))),
        decreases i,
    {
        i -= 1;
        assert(d@.skip(i as int).drop_first() =~= d@.skip(i + 1));
        out = out.concat(digit_text(d[i] as u64));
    }
    assert(d@.skip(0) =~= d@);
    out
}

fn scaled_often(d: Vec<u8>, by: u8, times: u64) -> (r: Vec<u8>)
    requires
        written_out(d@),
        1 <= by <= 9,
    ensures
        written_out(r@),
        value(r@) == value(d@) * pow(by as int, times as nat),
{
    let ghost start = value(d@);
    let mut out = d;
    let mut i: u64 = 0;
    proof {
        lemma_pow0(by as int);
        assert(start * pow(by as int, 0) == start) by (nonlinear_arith)
            requires
                pow(by as int, 0) == 1,
        ;
    }
    while i < times
        invariant
            i <= times,
            1 <= by <= 9,
            written_out(out@),
            value(out@) == start * pow(by as int, i as nat),
        decreases times - i,
    {
        out = scaled_by(&out, by);
        proof {
            let p = pow(by as int, i as nat);
            reveal(pow);
            assert(pow(by as int, (i + 1) as nat) == by * p);
            assert(by * (start * p) == start * (by * p)) by (nonlinear_arith);
        }
        i += 1;
    }
    out
}

/// A number written out in decimal, exactly.
pub fn exact_decimal_text(bits: u64) -> (r: String)
    ensures
        r@ == exact_decimal(bits),
{
    let e: u64 = (bits / FRACTION) % 2048;
    if e == 2047 {
        return "".to_owned();
    }
    let fraction: u64 = bits % FRACTION;
    let m: u64 = if e == 0 {
        fraction
    } else {
        FRACTION + fraction
    };
    let digits = digits_from(m);
    let k: u64 = if e == 0 {
        1074
    } else if e < 1075 {
        1075 - e
    } else {
        0
    };
    let digits = if e < 1075 {
        proof {
            lemma_pow_positive(5, k as nat);
        }
        scaled_often(digits, 5, k)
    } else {
        proof {
            lemma_pow2((e - 1075) as nat);
        }
        scaled_often(digits, 2, e - 1075)
    };
    let sign = if bits >= SIGN {
        "-"
    } else {
        ""
    };
    sign.to_owned().concat(write_out(&digits).as_str()).concat("e-").concat(
        decimal_text(k).as_str(),
    )
}

} // verus!
