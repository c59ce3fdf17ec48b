use hue_driver::binary::{kelvin, percent, whole_number};
use hue_driver::codec::json_string;
use hue_driver::decimal::exact_decimal_text;
use hue_driver::json::{JsonValue, Number, Record};
use hue_driver::order::{in_order, same_texts, sorted_set};
use hue_driver::text::{
    clip, contains, decimal_text, eq_ignore_ascii_case, first_segment, hexadecimal_text, same,
    starts_with, trim,
};

fn owned(items: &[&str]) -> Vec<String> {
    items.iter().map(|s| s.to_string()).collect()
}

#[test]
fn a_record_keeps_what_it_is_given() {
    let mut r = Record::new();
    assert!(r.get("a").is_none());
    r.insert("a", JsonValue::Bool(true));
    r.insert("b", JsonValue::Null);
    r.insert("a", JsonValue::Bool(false));
    assert_eq!(r.get("a").and_then(JsonValue::as_bool), Some(false));
    assert!(r.contains_key("b"));
    assert_eq!(r.entries.len(), 2);
    r.remove("a");
    assert!(!r.contains_key("a"));
    let twice = Record {
        entries: vec![
            ("k".to_string(), JsonValue::Number(Number::PosInt(1))),
            ("k".to_string(), JsonValue::Number(Number::PosInt(2))),
        ],
    };
    assert_eq!(twice.get("k").and_then(JsonValue::as_u64), Some(2), "the later one counts");
    assert_eq!(twice.clone().get("k").and_then(JsonValue::as_u64), Some(2));
}

#[test]
fn only_objects_have_members() {
    assert!(JsonValue::Null.get("a").is_none());
    assert!(JsonValue::Array(vec![]).get("a").is_none());
    assert!(JsonValue::Number(Number::NegInt(-1)).as_u64().is_none());
    assert!(JsonValue::Number(Number::Float(1.0f64.to_bits())).as_u64().is_none());
}

#[test]
fn percentages_are_rounded_as_floating_point_rounds_them() {
    for x in [
        0.0f64, -0.0, 0.49, 0.5, 0.999, 1.0, 1.4999999999999998, 1.5, 2.5, 49.5, 99.4, 99.5, 100.0,
        100.5, 1e9, 1e300, -1.0, -1e300, 5e-324, 46.499999999999996,
    ] {
        let expected = x.round().clamp(1.0, 100.0) as u64;
        assert_eq!(percent(Number::Float(x.to_bits())), expected, "{x}");
    }
    assert_eq!(percent(Number::PosInt(37)), 37);
    assert_eq!(percent(Number::PosInt(u64::MAX)), 100);
    assert_eq!(percent(Number::NegInt(-4)), 1);
}

#[test]
fn whole_numbers_are_exact_in_binary() {
    for n in 0..=255u8 {
        assert_eq!(whole_number(n), Number::Float((n as f64).to_bits()), "{n}");
    }
}

#[test]
fn kelvin_is_a_million_over_the_mireds() {
    for m in [1u64, 3, 153, 222, 454, 500, 1999, 2_000_000, 2_000_001, u64::MAX] {
        let expected = (1_000_000.0 / m as f64).round() as u32;
        assert_eq!(kelvin(Number::PosInt(m)), Some(expected), "{m}");
    }
    for x in [0.5f64, 1.5, 152.99, 366.3, 3e-4, 2e6, 2.0000001e6, 1e-9, 1e300] {
        let expected = (1_000_000.0f64 / x).round() as u32;
        assert_eq!(kelvin(Number::Float(x.to_bits())), Some(expected), "{x}");
    }
    assert_eq!(kelvin(Number::PosInt(0)), None);
    assert_eq!(kelvin(Number::NegInt(-5)), None);
    assert_eq!(kelvin(Number::Float((-1.0f64).to_bits())), None);
    assert_eq!(kelvin(Number::Float(0)), None);
}

#[test]
fn texts_are_put_in_order_once_each() {
    assert_eq!(
        sorted_set(owned(&["b", "a", "é", "b", "", "Z", "ab"])),
        owned(&["", "Z", "a", "ab", "b", "é"])
    );
    assert!(in_order("a", "a") && in_order("a", "b") && !in_order("b", "a"));
    assert!(in_order("", "a") && !in_order("ab", "a"));
    assert!(same_texts(&owned(&["a"]), &owned(&["a"])));
    assert!(!same_texts(&owned(&["a"]), &owned(&["a", "b"])));
}

#[test]
fn texts_are_taken_apart() {
    assert!(contains("the link button", "link button"));
    assert!(contains("anything", ""));
    assert!(!contains("", "a"));
    assert!(starts_with("127.0.0.1", "127.") && !starts_with("12", "127."));
    assert_eq!(first_segment("a.b.c"), "a");
    assert_eq!(first_segment("plain"), "plain");
    assert_eq!(first_segment(".hidden"), "");
    for s in ["  a b \n", "\u{3000}\u{2003}x\u{85}", "", " \t ", "no"] {
        assert_eq!(trim(s), s.trim());
    }
    assert_eq!(clip("ééé", 2), "éé");
    assert_eq!(clip("a", 9), "a");
    assert!(same("é", "é") && !same("e", "é"));
    assert!(eq_ignore_ascii_case("PoSt", "post") && !eq_ignore_ascii_case("É", "é"));
}

#[test]
fn numbers_are_written_out() {
    for n in [0, 7, 10, 99, 100, 1234567890, u64::MAX] {
        assert_eq!(decimal_text(n), format!("{n}"));
    }
    for n in [0u64, 30, 0xDEADBEEF] {
        assert_eq!(hexadecimal_text(n, 8), format!("{n:08X}"));
    }
}

#[test]
fn numbers_are_written_out_in_decimal_exactly() {
    assert_eq!(exact_decimal_text(0.5f64.to_bits()), format!("5{}e-53", "0".repeat(52)));
    assert_eq!(exact_decimal_text((-0.0f64).to_bits()), "-0e-1074");
    assert_eq!(exact_decimal_text(1e22f64.to_bits()), "10000000000000000000000e-0");
    assert_eq!(exact_decimal_text(f64::INFINITY.to_bits()), "");
    assert_eq!(exact_decimal_text(f64::NAN.to_bits()), "");
    for x in [
        0.0, 1.0, 0.1, -0.3, 255.0, 1.0 / 3.0, 5e-324, -2.2250738585072014e-308, f64::MAX,
        f64::EPSILON, 123456789.125, 9007199254740993.0,
    ] {
        let back: f64 = exact_decimal_text(x.to_bits()).parse().unwrap();
        assert_eq!(back.to_bits(), x.to_bits(), "{x}");
    }
}

#[test]
fn documents_are_written_compactly_with_their_members_in_order() {
    let mut r = Record::new();
    r.insert("b", JsonValue::Number(Number::NegInt(-7)));
    r.insert("a", JsonValue::Array(vec![
        JsonValue::Null,
        JsonValue::Bool(true),
        JsonValue::Number(Number::PosInt(u64::MAX)),
        JsonValue::Number(Number::Float(46.5f64.to_bits())),
        JsonValue::String("q\"\n\u{e9}".to_string()),
    ]));
    r.insert("c", JsonValue::Object(Record::new()));
    assert_eq!(
        json_string(&JsonValue::Object(r)),
        "{\"a\":[null,true,18446744073709551615,46.5,\"q\\\"\\n\u{e9}\"],\"b\":-7,\"c\":{}}"
    );
}
