//! What holds of the numbers that are reported and sent.
use vstd::arithmetic::div_mod::{lemma_fundamental_div_mod, lemma_mod_bound};
use vstd::arithmetic::power::pow;
use vstd::arithmetic::power2::lemma_pow2_pos;
use vstd::prelude::*;

use crate::binary::{exponent_field, kelvin_of, magnitude, percent_of, scaled, unit, SIGN};
use crate::decimal::{all_digits, exact_decimal, law_exact_decimal_keeps_value, places};
use crate::json::Number;
use crate::text::decimal;
use crate::text_laws::{law_decimal_digits_stand_for_the_number, number_value};

verus! {

/// A number as a percentage is the nearest whole one, the upper of two that are as near, from 1 to
/// 100. Of a number in binary, the value is `scaled(bits)` over `unit()`.
pub proof fn law_a_percentage_is_the_nearest_whole_one(n: Number)
    ensures
        1 <= percent_of(n) <= 100,
        n matches Number::PosInt(k) ==> {
            &&& 1 <= k <= 100 ==> percent_of(n) == k
            &&& k > 100 ==> percent_of(n) == 100
        },
        n matches Number::NegInt(k) && k < 0 ==> percent_of(n) == 1,
        n matches Number::Float(bits) ==> {
            let p = percent_of(n);
            let v = scaled(bits);
            let u = unit() as int;
            &&& v <= u ==> p == 1
            &&& v >= 100 * u ==> p == 100
            &&& u < v < 100 * u ==> 2 * v - u < 2 * (p * u) <= 2 * v + u
        },
{
    if let Number::Float(bits) = n {
        let v = scaled(bits);
        let u = unit() as int;
        lemma_pow2_pos(1074);
        if v >= 0 {
            let m = magnitude(bits) as int;
            let q = (2 * m + u) / (2 * u);
            lemma_fundamental_div_mod(2 * m + u, 2 * u);
            lemma_mod_bound(2 * m + u, 2 * u);
            let r = (2 * m + u) % (2 * u);
            assert(2 * u * q == 2 * (q * u)) by (nonlinear_arith);
            assert(2 * (q * u) + r == 2 * m + u);
            if m <= u {
                assert(q <= 1) by (nonlinear_arith)
                    requires
                        2 * (q * u) + r == 2 * m + u,
                        m <= u,
                        r >= 0,
                        u > 0,
                ;
            }
            if m >= 100 * u {
                assert(q >= 100) by (nonlinear_arith)
                    requires
                        2 * (q * u) + r == 2 * m + u,
                        m >= 100 * u,
                        r < 2 * u,
                        u > 0,
                ;
            }
            if u < m < 100 * u {
                assert(1 <= q <= 100) by (nonlinear_arith)
                    requires
                        2 * (q * u) + r == 2 * m + u,
                        u < m < 100 * u,
                        0 <= r < 2 * u,
                        u > 0,
                ;
            }
        }
    }
}

/// The kelvin of a whole number of mireds are the integer nearest to a million over it, the upper
/// of two that are as near; there are none for 0 or less.
pub proof fn law_kelvin_are_the_nearest_to_a_million_over_mireds(n: Number)
    ensures
        n matches Number::PosInt(m) ==> (kelvin_of(n) is Some <==> m > 0),
        n matches Number::PosInt(m) && m > 0 ==> ({
            let k = kelvin_of(n)->0;
            2_000_000 - n->PosInt_0 < 2 * (k * n->PosInt_0) <= 2_000_000 + n->PosInt_0
        }),
        n is NegInt ==> kelvin_of(n) is None,
        n matches Number::Float(bits) ==> (kelvin_of(n) is Some <==> scaled(bits) > 0),
{
    if let Number::PosInt(m) = n {
        if m > 0 {
            let m = m as int;
            let k = (2_000_000 + m) / (2 * m);
            lemma_fundamental_div_mod(2_000_000 + m, 2 * m);
            lemma_mod_bound(2_000_000 + m, 2 * m);
            assert(2 * m * k == 2 * (k * m)) by (nonlinear_arith);
            assert(0 <= k <= 1_000_001) by (nonlinear_arith)
                requires
                    m >= 1,
                    2 * (k * m) + (2_000_000 + m) % (2 * m) == 2_000_000 + m,
                    0 <= (2_000_000 + m) % (2 * m) < 2 * m,
            ;
        }
    }
}

/// Whether a text is a number written out: its sign, digits, and how many of them are behind the
/// point, so that it has the value of a number in binary.
pub open spec fn is_written_out(
    text: Seq<char>,
    bits: u64,
    digits: Seq<char>,
    places: Seq<char>,
) -> bool {
    &&& text == (if scaled(bits) < 0 || bits >= SIGN {
        "-"@
    } else {
        ""@
    }) + digits + "e-"@ + places
    &&& number_value(places, 10) >= 0
    &&& number_value(digits, 10) * unit() == (if scaled(bits) < 0 {
        -scaled(bits)
    } else {
        scaled(bits)
    }) * pow(10, number_value(places, 10) as nat)
}

/// A finite number in binary is written out as the decimal number of the same value.
pub proof fn law_a_number_is_written_out(bits: u64)
    requires
        exponent_field(bits) != 2047,
    ensures
        exists|digits: Seq<char>, places: Seq<char>|
            #[trigger] is_written_out(exact_decimal(bits), bits, digits, places),
{
    law_exact_decimal_keeps_value(bits);
    let (n, k) = (all_digits(bits), places(bits));
    law_decimal_digits_stand_for_the_number(n);
    law_decimal_digits_stand_for_the_number(k);
    assert(is_written_out(exact_decimal(bits), bits, decimal(n), decimal(k)));
}

} // verus!
