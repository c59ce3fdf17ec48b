//! What a light can do, as the bridge describes it.
use vstd::prelude::*;

use crate::binary::{kelvin, kelvin_of};
use crate::json::{
    at, get_in, get_of, json_uint, number_in, number_of, uint, Json, JsonValue, Number, Record,
};
use crate::light::LONGEST_RAMP_MS;

verus! {

/// Whether a light has a feature. Absent and null both mean no: the bridge uses null for a
/// feature that it cannot describe just now.
pub open spec fn has_feature(light: Json, name: Seq<char>) -> bool {
    light.get(name) matches Some(j) && j is Object
}

/// One end of the whites that a light spans, in kelvin.
pub open spec fn white_end(light: Json, end: Seq<char>) -> Option<u32> {
    match number_in(get_in(get_in(light.get("color_temperature"@), "mirek_schema"@), end)) {
        Some(mirek) => kelvin_of(mirek),
        None => None,
    }
}

/// The warmest white of a light. Mired is reciprocal: the most mireds are the fewest kelvin.
pub open spec fn warmest(light: Json) -> u32 {
    match white_end(light, "mirek_maximum"@) {
        Some(k) => k,
        None => 2000,
    }
}

/// The coolest white of a light.
pub open spec fn coolest(light: Json) -> u32 {
    match white_end(light, "mirek_minimum"@) {
        Some(k) => k,
        None => 6500,
    }
}

/// What one light can do. A fitting that cannot dim cannot ramp either, and the range of whites
/// is named only where there is one.
pub open spec fn capabilities(light: Json) -> Map<Seq<char>, Json> {
    let dimmer = has_feature(light, "dimming"@);
    let cct = has_feature(light, "color_temperature"@);
    let plain = Map::empty().insert("dimmer"@, Json::Bool(dimmer)).insert(
        "supports_color"@,
        Json::Bool(has_feature(light, "color"@)),
    ).insert("supports_cct"@, Json::Bool(cct)).insert("supports_ramp"@, Json::Bool(dimmer)).insert(
        "ramp_rate_max_ms"@,
        uint(LONGEST_RAMP_MS),
    );
    if cct {
        plain.insert("cct_min"@, uint(warmest(light) as u64)).insert(
            "cct_max"@,
            uint(coolest(light) as u64),
        )
    } else {
        plain
    }
}

/// What to call a light's shape in a list.
pub open spec fn shape(light: Json) -> Seq<char> {
    let color = has_feature(light, "color"@);
    let cct = has_feature(light, "color_temperature"@);
    if color && cct {
        "color and tunable white"@
    } else if color {
        "color"@
    } else if cct {
        "tunable white"@
    } else if has_feature(light, "dimming"@) {
        "dimmable"@
    } else {
        "on/off"@
    }
}

/// Of two whole numbers of mireds the smaller is the cooler white.
proof fn lemma_fewer_mireds_are_cooler(a: u64, b: u64)
    requires
        0 < a <= b,
    ensures
        kelvin_of(Number::PosInt(a)) is Some,
        kelvin_of(Number::PosInt(b)) is Some,
        kelvin_of(Number::PosInt(b))->0 <= kelvin_of(Number::PosInt(a))->0,
{
    let (x, y) = (a as int, b as int);
    let p = (2_000_000 + x) / (2 * x);
    let q = (2_000_000 + y) / (2 * y);
    assert(q * (2 * y) <= 2_000_000 + y) by (nonlinear_arith)
        requires
            y > 0,
            q == (2_000_000 + y) / (2 * y),
    ;
    assert(0 <= p <= 2_000_000) by (nonlinear_arith)
        requires
            x > 0,
            p == (2_000_000 + x) / (2 * x),
    ;
    assert(0 <= q) by (nonlinear_arith)
        requires
            y > 0,
            q == (2_000_000 + y) / (2 * y),
    ;
    assert(q <= p) by (nonlinear_arith)
        requires
            0 < x <= y,
            0 <= q,
            q * (2 * y) <= 2_000_000 + y,
            p == (2_000_000 + x) / (2 * x),
    {
        if q >= 1 {
            assert((2 * q - 1) * x <= (2 * q - 1) * y);
            assert(q * (2 * x) <= 2_000_000 + x);
        }
    }
}

/// The whites that a light spans run from warm to cool: the two ends swap over, since the most
/// mireds are the fewest kelvin.
pub proof fn law_the_ends_of_the_whites_swap_over(light: Json, least: u64, most: u64)
    requires
        0 < least <= most,
        number_in(
            get_in(get_in(light.get("color_temperature"@), "mirek_schema"@), "mirek_minimum"@),
        ) == Some(Number::PosInt(least)),
        number_in(
            get_in(get_in(light.get("color_temperature"@), "mirek_schema"@), "mirek_maximum"@),
        ) == Some(Number::PosInt(most)),
    ensures
        kelvin_of(Number::PosInt(most)) == Some(warmest(light)),
        kelvin_of(Number::PosInt(least)) == Some(coolest(light)),
        warmest(light) <= coolest(light),
{
    lemma_fewer_mireds_are_cooler(least, most);
}

/// A feature that is absent or null is no capability: what is not dimmed cannot ramp, and whites
/// are named only for a light that has them.
pub proof fn law_absent_and_null_are_no_capabilities(light: Json)
    ensures
        light.get("color"@) is None || light.get("color"@) == Some(Json::Null) ==> at(
            capabilities(light),
            "supports_color"@,
        ) == Some(Json::Bool(false)),
        light.get("dimming"@) is None || light.get("dimming"@) == Some(Json::Null) ==> at(
            capabilities(light),
            "dimmer"@,
        ) == Some(Json::Bool(false)) && at(capabilities(light), "supports_ramp"@) == Some(
            Json::Bool(false),
        ),
        light.get("color_temperature"@) is None || light.get("color_temperature"@) == Some(
            Json::Null,
        ) ==> at(capabilities(light), "supports_cct"@) == Some(Json::Bool(false)) && at(
            capabilities(light),
            "cct_min"@,
        ) is None && at(capabilities(light), "cct_max"@) is None,
{
    reveal_strlit("dimmer");
    reveal_strlit("supports_color");
    reveal_strlit("supports_cct");
    reveal_strlit("supports_ramp");
    reveal_strlit("ramp_rate_max_ms");
    reveal_strlit("cct_min");
    reveal_strlit("cct_max");
    assert("cct_min"@[5] == 'i');
    assert("cct_max"@[5] == 'a');
    assert("dimmer"@.len() == 6);
    assert("supports_color"@.len() == 14);
    assert("supports_cct"@.len() == 12);
    assert("supports_ramp"@.len() == 13);
    assert("ramp_rate_max_ms"@.len() == 16);
}

fn feature(light: &JsonValue, name: &str) -> (r: bool)
    ensures
        r == has_feature(light@, name@),
{
    match light.get(name) {
        Some(v) => v.as_object().is_some(),
        None => false,
    }
}

fn white(light: &JsonValue, end: &str, otherwise: u32) -> (r: u32)
    ensures
        r == (match white_end(light@, end@) {
            Some(k) => k,
            None => otherwise,
        }),
{
    let mirek = number_of(
        get_of(get_of(light.get("color_temperature"), "mirek_schema"), end),
    );
    match mirek {
        Some(n) => match kelvin(n) {
            Some(k) => k,
            None => otherwise,
        },
        None => otherwise,
    }
}

/// What one light can actually do.
///
/// This is decided here rather than hidden in a control: the host validates commands against it,
/// so a light that claims color can be sent one whatever any screen chooses to draw.
pub fn bulb_capabilities(light: &JsonValue) -> (r: Record)
    ensures
        r@ == capabilities(light@),
{
    let dimmer = feature(light, "dimming");
    let cct = feature(light, "color_temperature");
    let plain = Record::new().with("dimmer", JsonValue::Bool(dimmer)).with(
        "supports_color",
        JsonValue::Bool(feature(light, "color")),
    ).with("supports_cct", JsonValue::Bool(cct)).with(
        "supports_ramp",
        JsonValue::Bool(dimmer),
    ).with("ramp_rate_max_ms", json_uint(LONGEST_RAMP_MS));
    if cct {
        plain.with("cct_min", json_uint(white(light, "mirek_maximum", 2000) as u64)).with(
            "cct_max",
            json_uint(white(light, "mirek_minimum", 6500) as u64),
        )
    } else {
        plain
    }
}

/// What to call this light's shape in a list somebody is reading.
pub fn bulb_shape(light: &JsonValue) -> (r: &'static str)
    ensures
        r@ == shape(light@),
{
    let color = feature(light, "color");
    let cct = feature(light, "color_temperature");
    if color && cct {
        "color and tunable white"
    } else if color {
        "color"
    } else if cct {
        "tunable white"
    } else if feature(light, "dimming") {
        "dimmable"
    } else {
        "on/off"
    }
}

} // verus!
