use hue_driver::capability::{bulb_capabilities, bulb_shape};
use hue_driver::host::{Effect, HostCall, HttpRequest, Instance};
use hue_driver::json::{JsonValue, Number, Record};
use hue_driver::light::{asked_color, level_body, power_body, white_body, Pair};
use hue_driver::HueBulb;

fn text(s: &str) -> JsonValue {
    JsonValue::String(s.to_string())
}

fn num(n: u64) -> JsonValue {
    JsonValue::Number(Number::PosInt(n))
}

fn float(x: f64) -> JsonValue {
    JsonValue::Number(Number::Float(x.to_bits()))
}

fn record(entries: Vec<(&str, JsonValue)>) -> Record {
    let mut r = Record::new();
    for (k, v) in entries {
        r.insert(k, v);
    }
    r
}

fn object(entries: Vec<(&str, JsonValue)>) -> JsonValue {
    JsonValue::Object(record(entries))
}

fn list(items: Vec<JsonValue>) -> JsonValue {
    JsonValue::Array(items)
}

fn same_record(a: &Record, b: &Record) -> bool {
    a.entries.iter().all(|(k, _)| b.contains_key(k))
        && b.entries.iter().all(|(k, _)| match (a.get(k), b.get(k)) {
            (Some(x), Some(y)) => same(x, y),
            _ => false,
        })
}

/// A document read back by `serde_json`.
fn read(v: serde_json::Value) -> JsonValue {
    match v {
        serde_json::Value::Null => JsonValue::Null,
        serde_json::Value::Bool(b) => JsonValue::Bool(b),
        serde_json::Value::Number(n) => JsonValue::Number(match (n.as_u64(), n.as_i64()) {
            (Some(u), _) => Number::PosInt(u),
            (_, Some(i)) => Number::NegInt(i),
            _ => Number::Float(n.as_f64().unwrap().to_bits()),
        }),
        serde_json::Value::String(s) => JsonValue::String(s),
        serde_json::Value::Array(a) => JsonValue::Array(a.into_iter().map(read).collect()),
        serde_json::Value::Object(o) => JsonValue::Object(Record {
            entries: o.into_iter().map(|(k, v)| (k, read(v))).collect(),
        }),
    }
}

/// The document that a request carries as text.
fn body_of(request: &HttpRequest) -> JsonValue {
    read(serde_json::from_str(request.body.as_deref().expect("request body")).unwrap())
}

/// Whether two values are the same document; the order of members does not count.
fn same(a: &JsonValue, b: &JsonValue) -> bool {
    match (a, b) {
        (JsonValue::Null, JsonValue::Null) => true,
        (JsonValue::Bool(x), JsonValue::Bool(y)) => x == y,
        (JsonValue::Number(x), JsonValue::Number(y)) => x == y,
        (JsonValue::String(x), JsonValue::String(y)) => x == y,
        (JsonValue::Array(x), JsonValue::Array(y)) => {
            x.len() == y.len() && x.iter().zip(y.iter()).all(|(p, q)| same(p, q))
        }
        (JsonValue::Object(x), JsonValue::Object(y)) => same_record(x, y),
        _ => false,
    }
}

fn at<'a>(r: &'a Record, key: &str) -> &'a JsonValue {
    r.get(key).expect("a member of that name")
}

fn nowhere() -> Pair {
    Pair { first: Number::Float(0), second: Number::Float(0) }
}

fn inst() -> Instance {
    let mut inst = Instance::default();
    inst.properties.insert("Bridge address", text("10.0.0.2"));
    inst.properties.insert("Application key", text("k"));
    inst.properties.insert("Light id", text("l1"));
    inst
}

fn bulb() -> Instance {
    let mut inst = Instance::new(1);
    inst.properties.insert("Bridge address", text("192.0.2.1"));
    inst.properties.insert("Application key", text("key"));
    inst.properties.insert("Light id", text("light"));
    inst
}

fn notes(effects: &[Effect]) -> Vec<(String, Record)> {
    effects
        .iter()
        .filter_map(|e| match e {
            Effect::Call(HostCall::Notify { name, args, .. }) => Some((name.clone(), args.clone())),
            _ => None,
        })
        .collect()
}

fn said(calls: &[HostCall]) -> Vec<(String, Record)> {
    calls
        .iter()
        .filter_map(|c| match c {
            HostCall::Notify { name, args, .. } => Some((name.clone(), args.clone())),
            _ => None,
        })
        .collect()
}

fn request_body(calls: &[HostCall]) -> JsonValue {
    let HostCall::Http(request) = &calls[0] else {
        panic!("first call was not an HTTP request")
    };
    body_of(request)
}

fn no_args() -> Record {
    Record::new()
}

/// A bulb switched off in the Hue app still reports the brightness it will return to.
/// Core used to infer power from that level and turn the lamp back on on screen.
#[test]
fn an_off_bulb_reports_off_and_keeps_its_brightness() {
    let mut inst = inst();
    let light = object(vec![
        ("on", object(vec![("on", JsonValue::Bool(false))])),
        ("dimming", object(vec![("brightness", float(47.0))])),
    ]);
    let said = notes(&HueBulb::report(&mut inst, &light));

    let power = said.iter().find(|(n, _)| n == "power_changed").expect("says it is off");
    assert!(same(at(&power.1, "on"), &JsonValue::Bool(false)));

    let level = said.iter().find(|(n, _)| n == "level_changed").expect("and how bright");
    assert!(
        same(at(&level.1, "level"), &num(47)),
        "the level it will come back at, not zero standing in for off",
    );
}

#[test]
fn an_on_bulb_reports_on() {
    let mut inst = inst();
    let light = object(vec![
        ("on", object(vec![("on", JsonValue::Bool(true))])),
        ("dimming", object(vec![("brightness", float(80.0))])),
    ]);
    let said = notes(&HueBulb::report(&mut inst, &light));
    assert!(same(
        at(&said.iter().find(|(n, _)| n == "power_changed").unwrap().1, "on"),
        &JsonValue::Bool(true),
    ));
}

#[test]
fn plain_on_is_power_only_while_set_level_explicitly_sets_brightness() {
    let mut inst = bulb();
    inst.scratch.insert("level", num(23));

    let on = HueBulb.on_command(&mut inst, 1, "on", &no_args(), nowhere());
    assert!(same(
        &request_body(&on),
        &object(vec![("on", object(vec![("on", JsonValue::Bool(true))]))]),
    ));

    let args = record(vec![("level", num(100))]);
    let level = HueBulb.on_command(&mut inst, 1, "set_level", &args, nowhere());
    assert!(same(
        &request_body(&level),
        &object(vec![
            ("on", object(vec![("on", JsonValue::Bool(true))])),
            ("dimming", object(vec![("brightness", float(100.0))])),
        ]),
    ));
}

#[test]
fn an_off_resource_remembers_the_level_hue_will_restore() {
    let mut inst = bulb();
    HueBulb::report(
        &mut inst,
        &object(vec![
            ("on", object(vec![("on", JsonValue::Bool(false))])),
            ("dimming", object(vec![("brightness", float(17.0))])),
        ]),
    );

    assert!(same(at(&inst.scratch, "level"), &num(17)));
    assert!(same(at(&inst.scratch, "on"), &JsonValue::Bool(false)));
    let on = HueBulb.on_command(&mut inst, 1, "on", &no_args(), nowhere());
    assert!(same(
        &request_body(&on),
        &object(vec![("on", object(vec![("on", JsonValue::Bool(true))]))]),
    ));
}

#[test]
fn a_white_light_is_not_offered_color() {
    let white = bulb_capabilities(&object(vec![("dimming", object(vec![]))]));
    assert!(same(at(&white, "dimmer"), &JsonValue::Bool(true)));
    assert!(same(at(&white, "supports_color"), &JsonValue::Bool(false)));
    assert!(same(at(&white, "supports_cct"), &JsonValue::Bool(false)));
    assert_eq!(bulb_shape(&object(vec![("dimming", object(vec![]))])), "dimmable");

    let color = bulb_capabilities(&object(vec![
        ("dimming", object(vec![])),
        ("color", object(vec![])),
    ]));
    assert!(same(at(&color, "supports_color"), &JsonValue::Bool(true)));
}

#[test]
fn absent_or_null_features_are_not_capabilities() {
    // A socket with a lamp in it. Nothing but on and off, and a control surface that
    // offers a brightness slider for it is a slider that does nothing.
    let on_off = bulb_capabilities(&object(vec![
        ("color", JsonValue::Null),
        ("color_temperature", JsonValue::Null),
        ("dimming", JsonValue::Null),
    ]));
    assert!(same(at(&on_off, "dimmer"), &JsonValue::Bool(false)));
    assert!(same(at(&on_off, "supports_color"), &JsonValue::Bool(false)));
    assert!(same(at(&on_off, "supports_ramp"), &JsonValue::Bool(false)));

    // The shape a real warm-white resource uses: the keys are present in a generic
    // response, but a null color is not a gamut. The concrete temperature object is the
    // evidence, so this must never come out as a color light.
    let warm_white = object(vec![
        ("dimming", object(vec![("brightness", float(42.0))])),
        (
            "color_temperature",
            object(vec![("mirek", num(366)), ("mirek_valid", JsonValue::Bool(true))]),
        ),
        ("color", JsonValue::Null),
    ]);
    let caps = bulb_capabilities(&warm_white);
    assert!(same(at(&caps, "supports_color"), &JsonValue::Bool(false)));
    assert!(same(at(&caps, "supports_cct"), &JsonValue::Bool(true)));
    assert_eq!(bulb_shape(&warm_white), "tunable white");
}

#[test]
fn the_whites_offered_are_the_ones_this_fitting_spans() {
    // Mirek is reciprocal: the smallest mirek is the coolest white, so the two ends swap
    // over. Read the wrong way round a filament bulb advertises 6500K at the warm end and
    // every white it is asked for is clamped to something else.
    let filament = object(vec![
        ("dimming", object(vec![])),
        (
            "color_temperature",
            object(vec![(
                "mirek_schema",
                object(vec![("mirek_minimum", num(222)), ("mirek_maximum", num(454))]),
            )]),
        ),
    ]);
    let caps = bulb_capabilities(&filament);
    assert!(same(at(&caps, "cct_min"), &num(2203)), "the warmest it goes");
    assert!(same(at(&caps, "cct_max"), &num(4505)), "and the coolest");

    // A bridge that did not say gets the range Hue's own range spans.
    let quiet = bulb_capabilities(&object(vec![
        ("dimming", object(vec![])),
        ("color_temperature", object(vec![])),
    ]));
    assert!(same(at(&quiet, "cct_min"), &num(2000)));
    assert!(same(at(&quiet, "cct_max"), &num(6500)));
}

#[test]
fn whites_are_rounded_as_binary_division_rounds_them() {
    let spanning = |low: f64, high: f64| {
        bulb_capabilities(&object(vec![(
            "color_temperature",
            object(vec![(
                "mirek_schema",
                object(vec![("mirek_minimum", float(low)), ("mirek_maximum", float(high))]),
            )]),
        )]))
    };
    for (low, high) in [(153.0, 500.0), (222.5, 454.25), (1e-3, 1e9), (0.1, 0.3), (7.0, 3e-5)] {
        let caps = spanning(low, high);
        let warm = (1_000_000.0 / high).round() as u32;
        let cool = (1_000_000.0 / low).round() as u32;
        assert!(same(at(&caps, "cct_min"), &num(warm as u64)), "{high} gives {warm}");
        assert!(same(at(&caps, "cct_max"), &num(cool as u64)), "{low} gives {cool}");
    }
    // What is not positive is no white at all.
    let none = spanning(0.0, -3.0);
    assert!(same(at(&none, "cct_min"), &num(2000)));
    assert!(same(at(&none, "cct_max"), &num(6500)));
    // What does not fit is as large as fits.
    let tiny = spanning(1e-300, 5e-324);
    assert!(same(at(&tiny, "cct_min"), &num(u32::MAX as u64)));
    assert!(same(at(&tiny, "cct_max"), &num(u32::MAX as u64)));
}

#[test]
fn every_shape_has_a_name() {
    let some = || object(vec![]);
    assert_eq!(
        bulb_shape(&object(vec![("color", some()), ("color_temperature", some())])),
        "color and tunable white"
    );
    assert_eq!(bulb_shape(&object(vec![("color", some())])), "color");
    assert_eq!(bulb_shape(&object(vec![("color_temperature", some())])), "tunable white");
    assert_eq!(bulb_shape(&object(vec![])), "on/off");
    assert_eq!(bulb_shape(&text("no light")), "on/off");
}

#[test]
fn a_level_body_is_exact() {
    for level in 0..=255u8 {
        let body = level_body(level, None);
        let on = object(vec![("on", JsonValue::Bool(level > 0))]);
        let expected = if level == 0 {
            object(vec![("on", on)])
        } else {
            object(vec![
                ("on", on),
                ("dimming", object(vec![("brightness", float(level as f64))])),
            ])
        };
        assert!(same(&body, &expected), "level {level}");
    }
}

#[test]
fn a_transition_is_cut_to_the_longest_there_is() {
    let duration = |ms: u64| {
        power_body(true, Some(ms)).get("dynamics").unwrap().get("duration").unwrap().as_u64()
    };
    assert_eq!(duration(400), Some(400));
    assert_eq!(duration(6_553_000), Some(6_553_000));
    assert_eq!(duration(6_553_001), Some(6_553_000));
    assert!(power_body(true, None).get("dynamics").is_none());
}

#[test]
fn a_white_is_asked_for_in_mireds() {
    let mirek = |k: u64| {
        white_body(k).get("color_temperature").unwrap().get("mirek").unwrap().as_u64()
    };
    assert_eq!(mirek(2700), Some(370));
    assert_eq!(mirek(6500), Some(153));
    assert_eq!(mirek(10_000), Some(153));
    assert_eq!(mirek(1_000), Some(500));
    assert_eq!(mirek(0), Some(500));
}

#[test]
fn off_then_on_comes_back_at_the_level_it_was_at() {
    let mut inst = bulb();
    let set = record(vec![("level", num(42))]);
    HueBulb.on_command(&mut inst, 1, "set_level", &set, nowhere());
    let off = HueBulb.on_command(&mut inst, 1, "off", &no_args(), nowhere());
    assert_eq!(said(&off).len(), 1, "a light that goes out says nothing of its brightness");
    assert!(same(at(&inst.scratch, "level"), &num(42)));
    assert!(same(at(&inst.scratch, "on"), &JsonValue::Bool(false)));
    let on = HueBulb.on_command(&mut inst, 1, "on", &no_args(), nowhere());
    let words = said(&on);
    assert_eq!(words[0].0, "power_changed");
    assert_eq!(words[1].0, "level_changed");
    assert!(same(at(&words[1].1, "level"), &num(42)));
}

#[test]
fn toggling_twice_changes_nothing() {
    let mut inst = bulb();
    inst.scratch.insert("level", num(30));
    inst.scratch.insert("on", JsonValue::Bool(true));
    let once = HueBulb.on_command(&mut inst, 1, "toggle", &no_args(), nowhere());
    assert!(same(&request_body(&once), &power_body(false, None)));
    assert!(same(at(&inst.scratch, "on"), &JsonValue::Bool(false)));
    let twice = HueBulb.on_command(&mut inst, 1, "toggle", &no_args(), nowhere());
    assert!(same(&request_body(&twice), &power_body(true, None)));
    assert!(same(at(&inst.scratch, "on"), &JsonValue::Bool(true)));
    assert!(same(at(&inst.scratch, "level"), &num(30)));
}

#[test]
fn a_light_that_nothing_is_known_of_comes_on_at_full_brightness() {
    let mut inst = bulb();
    let on = HueBulb.on_command(&mut inst, 1, "on", &no_args(), nowhere());
    assert!(same(at(&said(&on)[1].1, "level"), &num(100)));
    inst.scratch.insert("level", num(0));
    let again = HueBulb.on_command(&mut inst, 1, "on", &no_args(), nowhere());
    assert!(same(at(&said(&again)[1].1, "level"), &num(100)));
}

#[test]
fn ramps_are_long_fades() {
    let mut inst = bulb();
    inst.scratch.insert("level", num(61));
    let up = record(vec![("direction", text("up"))]);
    let start = HueBulb.on_command(&mut inst, 1, "ramp_start", &up, nowhere());
    assert!(same(&request_body(&start), &level_body(100, Some(4000))));
    inst.scratch.insert("level", num(61));
    let down = HueBulb.on_command(&mut inst, 1, "ramp_start", &no_args(), nowhere());
    assert!(same(&request_body(&down), &level_body(1, Some(4000))));
    inst.scratch.insert("level", num(61));
    let stop = HueBulb.on_command(&mut inst, 1, "ramp_stop", &up, nowhere());
    assert!(same(&request_body(&stop), &level_body(61, Some(4000))));
}

#[test]
fn a_color_command_sends_the_point_and_states_what_was_asked() {
    let mut inst = bulb();
    let args = record(vec![("hue", float(240.0)), ("sat", num(80))]);
    let asked = asked_color(&args);
    assert_eq!(asked.first, Number::Float(240.0f64.to_bits()));
    assert_eq!(asked.second, Number::PosInt(80));
    let point = Pair {
        first: Number::Float(0.15f64.to_bits()),
        second: Number::Float(0.06f64.to_bits()),
    };
    let calls = HueBulb.on_command(&mut inst, 1, "set_color", &args, point);
    let xy = object(vec![("x", float(0.15)), ("y", float(0.06))]);
    assert!(same(&request_body(&calls), &object(vec![("color", object(vec![("xy", xy)]))])));
    let words = said(&calls);
    assert_eq!(words.len(), 1);
    assert_eq!(words[0].0, "color_changed");
    assert!(same_record(&words[0].1, &args));

    // What is not said is nought.
    let bare = HueBulb.on_command(&mut inst, 1, "set_color", &no_args(), nowhere());
    assert!(same_record(
        &said(&bare)[0].1,
        &record(vec![("hue", float(0.0)), ("sat", float(0.0))]),
    ));
    assert_eq!(asked_color(&no_args()), nowhere());
}

#[test]
fn a_white_command_states_the_kelvin_only_when_it_was_said() {
    let mut inst = bulb();
    let calls = HueBulb.on_command(
        &mut inst,
        1,
        "set_cct",
        &record(vec![("kelvin", num(4000))]),
        nowhere(),
    );
    assert!(same(&request_body(&calls), &white_body(4000)));
    assert!(same(at(&said(&calls)[0].1, "kelvin"), &num(4000)));
    let quiet = HueBulb.on_command(&mut inst, 1, "set_cct", &no_args(), nowhere());
    assert!(same(&request_body(&quiet), &white_body(2700)));
    assert_eq!(said(&quiet).len(), 0);
}

#[test]
fn a_command_goes_to_the_light_with_the_key() {
    let mut inst = bulb();
    let calls = HueBulb.on_command(&mut inst, 1, "off", &no_args(), nowhere());
    let HostCall::Http(request) = &calls[0] else {
        panic!("first call was not an HTTP request")
    };
    assert_eq!(request.method, "PUT");
    assert_eq!(request.url, "/clip/v2/resource/light/light");
    assert_eq!(request.headers, vec![("hue-application-key".to_string(), "key".to_string())]);
}

#[test]
fn what_is_not_known_or_not_set_up_is_only_a_warning() {
    let mut inst = bulb();
    let unknown = HueBulb.on_command(&mut inst, 1, "dance", &no_args(), nowhere());
    assert!(matches!(&unknown[..], [HostCall::Warn { message }] if message == "hue: unhandled `dance`"));

    let mut bare = Instance::default();
    bare.properties.insert("Light id", text("l1"));
    let missing = HueBulb.on_command(&mut bare, 1, "on", &no_args(), nowhere());
    assert!(matches!(
        &missing[..],
        [HostCall::Warn { message }]
            if message == "hue: set Bridge address and Light id on this device first"
    ));
    assert_eq!(bare.scratch.entries.len(), 0);
}

#[test]
fn a_level_is_kept_in_eight_bits() {
    let mut inst = bulb();
    let calls = HueBulb.on_command(
        &mut inst,
        1,
        "set_level",
        &record(vec![("level", num(300))]),
        nowhere(),
    );
    assert!(same(&request_body(&calls), &level_body(44, None)));
}

#[test]
fn a_brightness_is_rounded_and_brought_into_range() {
    for (brightness, level) in
        [(0.0, 1), (0.4, 1), (1.5, 2), (46.5, 47), (46.49, 46), (99.5, 100), (250.0, 100), (-3.0, 1)]
    {
        let mut inst = inst();
        HueBulb::report(
            &mut inst,
            &object(vec![("dimming", object(vec![("brightness", float(brightness))]))]),
        );
        assert!(same(at(&inst.scratch, "level"), &num(level)), "{brightness} is {level}");
    }
}

#[test]
fn a_report_leaves_alone_what_it_does_not_say() {
    let mut inst = inst();
    inst.scratch.insert("level", num(63));
    inst.scratch.insert("on", JsonValue::Bool(true));
    let light = object(vec![("color_temperature", object(vec![("mirek", num(250))]))]);
    let effects = HueBulb::report(&mut inst, &light);
    assert!(matches!(&effects[0], Effect::CacheEffects(v) if same(v, &light)));
    let words = notes(&effects);
    assert!(same(at(&inst.scratch, "level"), &num(63)));
    assert!(same(at(&inst.scratch, "on"), &JsonValue::Bool(true)));
    let cct = words.iter().find(|(n, _)| n == "cct_changed").unwrap();
    assert!(same(at(&cct.1, "kelvin"), &num(4000)));

    // Nothing known and nothing said: nothing is stated.
    let mut fresh = Instance::default();
    let silent = HueBulb::report(&mut fresh, &object(vec![]));
    assert_eq!(notes(&silent).len(), 0);
    assert_eq!(fresh.scratch.entries.len(), 0);
}

#[test]
fn a_reported_color_is_handed_on_as_a_point() {
    let mut inst = inst();
    let xy = object(vec![("x", float(0.2858)), ("y", float(0.3083))]);
    let light = object(vec![("color", object(vec![("xy", xy)]))]);
    let effects = HueBulb::report(&mut inst, &light);
    assert!(matches!(
        effects.last(),
        Some(Effect::Color { x: Number::Float(x), y: Number::Float(y) })
            if *x == 0.2858f64.to_bits() && *y == 0.3083f64.to_bits()
    ));
    let half = object(vec![("color", object(vec![("xy", object(vec![("x", float(0.3))]))]))]);
    assert_eq!(HueBulb::report(&mut inst, &half).len(), 1, "one coordinate is no point");
}

#[test]
fn bodies_are_sent_as_compact_text() {
    let mut inst = bulb();
    let mut sent = |cmd: &str, args: Record, point: Pair| {
        let calls = HueBulb.on_command(&mut inst, 1, cmd, &args, point);
        let HostCall::Http(request) = &calls[0] else {
            panic!("first call was not an HTTP request")
        };
        request.body.clone().unwrap()
    };
    assert_eq!(sent("on", no_args(), nowhere()), r#"{"on":{"on":true}}"#);
    assert_eq!(
        sent("set_level", record(vec![("level", num(42)), ("ramp_ms", num(400))]), nowhere()),
        r#"{"dimming":{"brightness":42.0},"dynamics":{"duration":400},"on":{"on":true}}"#
    );
    assert_eq!(
        sent("set_cct", no_args(), nowhere()),
        r#"{"color_temperature":{"mirek":370}}"#
    );
    for (x, y) in [(0.15, 0.06), (0.3127, 0.329), (1.0 / 3.0, 2.0f64.sqrt() / 3.0)] {
        let point = Pair {
            first: Number::Float(f64::to_bits(x)),
            second: Number::Float(f64::to_bits(y)),
        };
        assert_eq!(
            sent("set_color", no_args(), point),
            format!("{{\"color\":{{\"xy\":{{\"x\":{x},\"y\":{y}}}}}}}")
        );
    }
    // What is no number has no JSON form.
    let lost = Pair { first: Number::Float(f64::NAN.to_bits()), second: Number::PosInt(1) };
    assert_eq!(
        sent("set_color", no_args(), lost),
        r#"{"color":{"xy":{"x":null,"y":1}}}"#
    );
}
