//! JSON text, read and written by `serde_json`.
use serde_json::Value as SerdeValue;
use vstd::prelude::*;

use crate::decimal::{exact_decimal, exact_decimal_text};
use crate::json::{json_of, map_of, Json, JsonValue, Number, Record};
use crate::views::seen;

verus! {

/// A document as `serde_json` holds it.
#[verifier::external_type_specification]
#[verifier::external_body]
pub struct ExSerdeValue(serde_json::Value);

/// What a text holds, read as a JSON document; nothing where it is not one.
pub uninterp spec fn parsed_json(text: Seq<char>) -> Option<Json>;

/// A `serde_json::Value`, variant for variant and member for member. `serde_json::Number::as_u64`,
/// `as_i64` and `as_f64` tell which kind of number one is. It is the second half of [`parse_json`],
/// apart from it because documents nest, and nothing is claimed of it.
#[verifier::external_body]
fn converted(v: SerdeValue) -> (r: JsonValue) {
    match v {
        SerdeValue::Null => JsonValue::Null,
        SerdeValue::Bool(b) => JsonValue::Bool(b),
        SerdeValue::Number(n) => JsonValue::Number(match (n.as_u64(), n.as_i64()) {
            (Some(u), _) => Number::PosInt(u),
            (_, Some(i)) => Number::NegInt(i),
            _ => Number::Float(n.as_f64().unwrap_or_default().to_bits()),
        }),
        SerdeValue::String(s) => JsonValue::String(s),
        SerdeValue::Array(a) => JsonValue::Array(a.into_iter().map(converted).collect()),
        SerdeValue::Object(o) => JsonValue::Object(
            Record { entries: o.into_iter().map(|(k, v)| (k, converted(v))).collect() },
        ),
    }
}

/// `serde_json::from_str`, which reads one JSON document. What comes back is a function of the
/// text alone: the document that the text holds, or nothing where the call gives an error. Which
/// document a given text holds is left unsaid: that is the whole grammar of JSON.
#[verifier::external_body]
pub(crate) fn parse_json(text: &str) -> (r: Option<JsonValue>)
    ensures
        seen(r) == parsed_json(text@),
{
    serde_json::from_str(text).ok().map(converted)
}

/// A document whose numbers that are no integers are written out in decimal.
pub enum Spelled {
    Null,
    Bool(bool),
    PosInt(u64),
    NegInt(i64),
    /// A binary64 number by its bits, and the same number in decimal.
    Float { bits: u64, decimal: String },
    String(String),
    Array(Vec<Spelled>),
    Object(Vec<(String, Spelled)>),
}

/// The JSON value that a spelled document stands for.
pub open spec fn spelled_json(v: Spelled) -> Json
    decreases v,
{
    match v {
        Spelled::Null => Json::Null,
        Spelled::Bool(b) => Json::Bool(b),
        Spelled::PosInt(n) => Json::Number(Number::PosInt(n)),
        Spelled::NegInt(n) => Json::Number(Number::NegInt(n)),
        Spelled::Float { bits, .. } => Json::Number(Number::Float(bits)),
        Spelled::String(s) => Json::Str(s@),
        Spelled::Array(items) => Json::Array(
            Seq::new(
                items@.len(),
                |i: int|
                    if 0 <= i < items@.len() {
                        spelled_json(items@[i])
                    } else {
                        Json::Null
                    },
            ),
        ),
        Spelled::Object(entries) => Json::Object(spelled_map(entries@)),
    }
}

/// The values that a list of entries holds. A later entry hides an earlier one of its name.
pub open spec fn spelled_map(entries: Seq<(String, Spelled)>) -> Map<Seq<char>, Json>
    decreases entries,
{
    if entries.len() == 0 {
        Map::empty()
    } else {
        spelled_map(entries.drop_last()).insert(entries.last().0@, spelled_json(entries.last().1))
    }
}

impl View for Spelled {
    type V = Json;

    open spec fn view(&self) -> Json {
        spelled_json(*self)
    }
}

/// Whether every number of a document is spelled as it is.
pub open spec fn well_spelled(v: Spelled) -> bool
    decreases v,
{
    match v {
        Spelled::Float { bits, decimal } => decimal@ == exact_decimal(bits),
        Spelled::Array(items) => forall|i: int|
            0 <= i < items@.len() ==> #[trigger] well_spelled(items@[i]),
        Spelled::Object(entries) => forall|i: int|
            0 <= i < entries@.len() ==> well_spelled((#[trigger] entries@[i]).1),
        _ => true,
    }
}

/// Spells a document.
pub fn spelled(v: &JsonValue) -> (r: Spelled)
    ensures
        r@ == v@,
        well_spelled(r),
    decreases v,
{
    match v {
        JsonValue::Null => Spelled::Null,
        JsonValue::Bool(b) => Spelled::Bool(*b),
        JsonValue::Number(Number::PosInt(n)) => Spelled::PosInt(*n),
        JsonValue::Number(Number::NegInt(n)) => Spelled::NegInt(*n),
        JsonValue::Number(Number::Float(bits)) => Spelled::Float {
            bits: *bits,
            decimal: exact_decimal_text(*bits),
        },
        JsonValue::String(s) => Spelled::String(s.clone()),
        JsonValue::Array(items) => {
            let mut out: Vec<Spelled> = Vec::new();
            let mut i: usize = 0;
            while i < items.len()
                invariant
                    *v == JsonValue::Array(*items),
                    i <= items.len(),
                    out.len() == i,
                    forall|k: int|
                        0 <= k < i ==> well_spelled(#[trigger] out@[k]) && spelled_json(out@[k])
                            == json_of(items@[k]),
                decreases items.len() - i,
            {
                assert(decreases_to!(*v => v->Array_0));
                out.push(spelled(&items[i]));
                i += 1;
            }
            let r = Spelled::Array(out);
            assert(r@->Array_0 =~= v@->Array_0);
            r
        },
        JsonValue::Object(record) => {
            let mut out: Vec<(String, Spelled)> = Vec::new();
            let mut i: usize = 0;
            while i < record.entries.len()
                invariant
                    *v == JsonValue::Object(*record),
                    i <= record.entries.len(),
                    out.len() == i,
                    spelled_map(out@) == map_of(record.entries@.take(i as int)),
                    forall|k: int| 0 <= k < i ==> well_spelled((#[trigger] out@[k]).1),
                decreases record.entries.len() - i,
            {
                let entry = &record.entries[i];
                let ghost before = out@;
                assert(decreases_to!(*v => v->Object_0));
                let said = spelled(&entry.1);
                out.push((entry.0.clone(), said));
                proof {
                    assert(out@.drop_last() =~= before);
                    assert(record.entries@.take(i + 1).drop_last() =~= record.entries@.take(
                        i as int,
                    ));
                }
                i += 1;
            }
            assert(record.entries@.take(i as int) =~= record.entries@);
            Spelled::Object(out)
        },
    }
}

/// The text of a JSON document, written compactly.
pub uninterp spec fn written_json(document: Json) -> Seq<char>;

/// A `serde_json::Value` of a spelled document, variant for variant and member for member. A
/// number in decimal goes through `str::parse`, which gives the nearest binary64 number, and
/// `serde_json::Number::from_f64`; what is not finite becomes null. It is the first half of
/// [`write_json`], apart from it because documents nest, and nothing is claimed of it.
#[verifier::external_body]
fn serde_of(v: Spelled) -> (r: SerdeValue) {
    match v {
        Spelled::Null => SerdeValue::Null,
        Spelled::Bool(b) => SerdeValue::Bool(b),
        Spelled::PosInt(n) => SerdeValue::from(n),
        Spelled::NegInt(n) => SerdeValue::from(n),
        Spelled::Float { decimal, .. } => SerdeValue::from(
            decimal.parse().ok().and_then(serde_json::Number::from_f64),
        ),
        Spelled::String(s) => SerdeValue::String(s),
        Spelled::Array(a) => SerdeValue::Array(a.into_iter().map(serde_of).collect()),
        Spelled::Object(o) => SerdeValue::Object(
            o.into_iter().map(|(k, v)| (k, serde_of(v))).collect(),
        ),
    }
}

/// `serde_json::Value`'s `Display`, which writes a document compactly. What comes back is a
/// function of the document alone: members are written in the order of their names, and a number
/// by its value. How a given document is written is left unsaid: that is the whole grammar of
/// JSON.
#[verifier::external_body]
pub(crate) fn write_json(v: Spelled) -> (r: String)
    requires
        well_spelled(v),
    ensures
        r@ == written_json(v@),
{
    serde_of(v).to_string()
}

/// The text of a JSON document.
pub fn json_string(v: &JsonValue) -> (r: String)
    ensures
        r@ == written_json(v@),
{
    write_json(spelled(v))
}

} // verus!
