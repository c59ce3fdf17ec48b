use hue_driver::host::{Effect, HostCall, Instance};
use hue_driver::json::{JsonValue, Number, Record};
use hue_driver::role::Role;
use hue_driver::HueBulb;

fn text(s: &str) -> JsonValue {
    JsonValue::String(s.to_string())
}

fn num(n: u64) -> JsonValue {
    JsonValue::Number(Number::PosInt(n))
}

fn record(entries: Vec<(&str, JsonValue)>) -> Record {
    let mut r = Record::new();
    for (k, v) in entries {
        r.insert(k, v);
    }
    r
}

fn object(entries: Vec<(&str, JsonValue)>) -> JsonValue {
    JsonValue::Object(record(entries))
}

fn list(items: Vec<JsonValue>) -> JsonValue {
    JsonValue::Array(items)
}

fn same_record(a: &Record, b: &Record) -> bool {
    a.entries.iter().all(|(k, _)| b.contains_key(k))
        && b.entries.iter().all(|(k, _)| match (a.get(k), b.get(k)) {
            (Some(x), Some(y)) => same(x, y),
            _ => false,
        })
}

/// Whether two values are the same document; the order of members does not count.
fn same(a: &JsonValue, b: &JsonValue) -> bool {
    match (a, b) {
        (JsonValue::Null, JsonValue::Null) => true,
        (JsonValue::Bool(x), JsonValue::Bool(y)) => x == y,
        (JsonValue::Number(x), JsonValue::Number(y)) => x == y,
        (JsonValue::String(x), JsonValue::String(y)) => x == y,
        (JsonValue::Array(x), JsonValue::Array(y)) => {
            x.len() == y.len() && x.iter().zip(y.iter()).all(|(p, q)| same(p, q))
        }
        (JsonValue::Object(x), JsonValue::Object(y)) => same_record(x, y),
        _ => false,
    }
}

fn offered(resource: JsonValue) -> Option<(String, String, String)> {
    match HueBulb::offer(&resource).into_iter().next()? {
        HostCall::Notify { name, args, .. } => {
            assert_eq!(name, "device_added");
            let s = |k: &str| {
                args.get(k).and_then(JsonValue::as_str).unwrap_or("").to_string()
            };
            Some((s("id"), s("name"), s("kind")))
        }
        _ => None,
    }
}

#[test]
fn a_paired_bulb_is_offered_once_and_not_six_times() {
    // What the bridge actually pushes when one bulb is paired in the Hue app: the device
    // and every service hanging off it, each as its own `add`. Only the device is a thing
    // a person would recognize as "a new light".
    let device = object(vec![
        ("id", text("b8b7-1")),
        ("type", text("device")),
        ("metadata", object(vec![("name", text("Porch"))])),
        (
            "product_data",
            object(vec![
                ("product_name", text("Hue color lamp")),
                ("product_archetype", text("sultan_bulb")),
            ]),
        ),
    ]);
    assert_eq!(
        offered(device),
        Some(("b8b7-1".into(), "Porch".into(), "sultan_bulb".into()))
    );
    for service in ["light", "zigbee_connectivity", "entertainment", "taurus_7455"] {
        assert_eq!(
            HueBulb::offer(&object(vec![("id", text("x")), ("type", text(service))])).len(),
            0
        );
    }
}

#[test]
fn a_bulb_left_at_its_default_name_is_still_named() {
    // No `metadata.name` because nobody typed one. Falling through to the UUID would put
    // "0b216d8e-… was added" on somebody's phone.
    let (_, name, _) = offered(object(vec![
        ("id", text("0b216d8e")),
        ("type", text("device")),
        ("product_data", object(vec![("product_name", text("Hue dimmer switch"))])),
    ]))
    .expect("a device with no chosen name is still offered");
    assert_eq!(name, "Hue dimmer switch");
}

#[test]
fn a_device_with_no_name_at_all_goes_by_its_id() {
    let (id, name, kind) =
        offered(object(vec![("id", text("0b216d8e")), ("type", text("device"))])).unwrap();
    assert_eq!((id.as_str(), name.as_str(), kind.as_str()), ("0b216d8e", "0b216d8e", ""));
    assert_eq!(HueBulb::offer(&object(vec![("type", text("device"))])).len(), 0);
}

/// An instance with the ids a device of this role would have been adopted with.
fn adopted(pairs: &[(&str, &str)]) -> Instance {
    let mut inst = Instance::default();
    for (property, value) in pairs {
        inst.properties.insert(property, text(value));
    }
    inst
}

fn deleted(inst: &mut Instance, rid: &str, kind: &str) -> bool {
    let frame = object(vec![("id", text(rid)), ("type", text(kind))]);
    matches!(
        HueBulb::mine(inst, "delete", &frame).first(),
        Some(Effect::Call(HostCall::Gone { .. }))
    )
}

#[test]
fn a_bulb_unpaired_at_the_bridge_removes_itself_and_only_itself() {
    let mut mine = adopted(&[("Light id", "L1")]);
    assert!(deleted(&mut mine, "L1", "light"));
    // The frame reaches every device behind the bridge. One bulb being unpaired must not
    // take the rest of the house with it — the same rule that makes one stream serve
    // twenty-four devices.
    assert!(!deleted(&mut mine, "L2", "light"));
}

#[test]
fn any_one_service_is_enough_to_remove_a_multi_sensor() {
    // One piece of hardware, three services, and unpairing deletes all three. Whichever
    // arrives first is the one that removes it; waiting for all three would leave the
    // device half-gone if the bridge only named two.
    for rid in ["M1", "T1", "LL1"] {
        let mut sensor = adopted(&[
            ("Motion id", "M1"),
            ("Temperature id", "T1"),
            ("Light level id", "LL1"),
        ]);
        assert!(deleted(&mut sensor, rid, "motion"), "{rid} should remove it");
    }
}

#[test]
fn the_bridge_does_not_remove_what_it_merely_hears_about() {
    // It hears every deletion in the house on its own connection. Acting on them would let
    // one unpaired bulb remove the hub — and everything behind it with it.
    let mut bridge = adopted(&[("Bridge address", "10.0.0.2")]);
    assert!(!deleted(&mut bridge, "L1", "light"));
    assert!(!deleted(&mut bridge, "10.0.0.2", "device"));
}

#[test]
fn a_poll_never_offers_anything() {
    // The guard that keeps a controller restart quiet: the five collection reads at start
    // return every adopted device, and they arrive as `update`.
    let mut inst = Instance::default(); // no ids set, so Role::of is Bridge
    let device = object(vec![
        ("id", text("b8b7-1")),
        ("type", text("device")),
        ("metadata", object(vec![("name", text("Porch"))])),
    ]);
    assert_eq!(HueBulb::mine(&mut inst, "update", &device).len(), 0);
    assert_eq!(HueBulb::mine(&mut inst, "add", &device).len(), 1);
}

#[test]
fn a_whole_answer_never_offers_anything_either() {
    let device = object(vec![("id", text("b8b7-1")), ("type", text("device"))]);
    let args = record(vec![("body", object(vec![("data", list(vec![device]))]))]);
    for mut inst in [Instance::default(), adopted(&[("Light id", "b8b7-1")])] {
        for effect in HueBulb.on_event(&mut inst, 0, "http_response", &args, false) {
            assert!(!matches!(
                effect,
                Effect::Call(HostCall::Notify { ref name, .. }) if name == "device_added"
            ));
        }
    }
}

#[test]
fn only_the_bridge_offers_what_is_added() {
    let device = object(vec![("id", text("b8b7-1")), ("type", text("device"))]);
    for mut inst in [
        adopted(&[("Light id", "L1")]),
        adopted(&[("Motion id", "M1")]),
        adopted(&[("Rotary id", "R1")]),
    ] {
        assert_eq!(HueBulb::mine(&mut inst, "add", &device).len(), 0);
    }
}

#[test]
fn a_role_is_told_from_the_ids_that_are_set() {
    assert_eq!(Role::of(&adopted(&[("Light id", "L")])), Role::Bulb);
    assert_eq!(Role::of(&adopted(&[("Light id", ""), ("Motion id", "M")])), Role::Motion);
    assert_eq!(Role::of(&adopted(&[("Button 1 id", "B")])), Role::Control);
    assert_eq!(Role::of(&adopted(&[("Rotary id", "R")])), Role::Control);
    assert_eq!(Role::of(&adopted(&[("Button 2 id", "B")])), Role::Bridge);
    let dial = adopted(&[("Button 1 id", "a"), ("Button 3 id", "c"), ("Rotary id", "r")]);
    assert_eq!(Role::Control.bindings(&dial), vec![1, 3, 5]);
    let probe = adopted(&[("Motion id", "m"), ("Light level id", "l")]);
    assert_eq!(Role::Motion.bindings(&probe), vec![1, 3]);
    assert_eq!(Role::Bridge.bindings(&Instance::default()), vec![1]);
    assert_eq!(Role::Motion.id_properties(), vec!["Motion id", "Temperature id", "Light level id"]);
    assert!(!Role::Control.owns(&dial, ""));
    assert!(Role::Control.owns(&dial, "r"));
}

fn stream(frame: &str) -> Record {
    record(vec![("data", text(frame))])
}

const FRAME: &str = r#"[{"type":"update","data":[
    {"id":"L1","type":"light","dimming":{"brightness":42}},
    {"id":"L2","type":"light","on":{"on":false}}]}]"#;

#[test]
fn one_frame_serves_every_bulb_and_each_keeps_its_own() {
    let mut first = adopted(&[("Light id", "L1")]);
    let said = HueBulb.on_event(&mut first, 0, "rx", &stream(FRAME), false);
    assert_eq!(first.scratch.get("level").and_then(JsonValue::as_u64), Some(42));
    assert!(matches!(
        &said[1],
        Effect::Call(HostCall::Notify { proxy: 1, name, args })
            if name == "level_changed" && same_record(args, &record(vec![("level", num(42))]))
    ));

    let mut second = adopted(&[("Light id", "L2")]);
    let said = HueBulb.on_event(&mut second, 0, "rx", &stream(FRAME), false);
    assert_eq!(second.scratch.get("on").and_then(JsonValue::as_bool), Some(false));
    assert!(matches!(
        &said[1],
        Effect::Call(HostCall::Notify { name, .. }) if name == "power_changed"
    ));

    let mut third = adopted(&[("Light id", "L3")]);
    assert_eq!(HueBulb.on_event(&mut third, 0, "rx", &stream(FRAME), false).len(), 0);
    assert_eq!(third.scratch.entries.len(), 0);
}

#[test]
fn a_frame_is_read_whatever_numbers_it_holds() {
    let frame = r#"[{"data":[{"id":"L1","dimming":{"brightness":46.5},
        "color":{"xy":{"x":0.25,"y":-3}},"name":"a \"b\" é"}]}]"#;
    let mut bulb = adopted(&[("Light id", "L1")]);
    let effects = HueBulb.on_stream(&mut bulb, &stream(frame));
    assert_eq!(bulb.scratch.get("level").and_then(JsonValue::as_u64), Some(47));
    assert!(matches!(
        &effects[0],
        Effect::CacheEffects(v) if v.str_at("name") == Some("a \"b\" \u{e9}")
    ));
    assert!(matches!(
        effects.last(),
        Some(Effect::Color { x: Number::Float(x), y: Number::NegInt(-3) })
            if *x == 0.25f64.to_bits()
    ));
}

#[test]
fn a_keep_alive_means_nothing() {
    let mut bulb = adopted(&[("Light id", "L1")]);
    for data in ["", ": hi", "[{\"type\":\"upd", "{}", "null", "42"] {
        assert_eq!(HueBulb.on_stream(&mut bulb, &stream(data)).len(), 0, "{data}");
    }
    assert_eq!(HueBulb.on_stream(&mut bulb, &Record::new()).len(), 0);
    assert_eq!(HueBulb.on_event(&mut bulb, 0, "connected", &stream(FRAME), false).len(), 0);
    assert_eq!(bulb.scratch.entries.len(), 0);
}

fn urls(effects: &[Effect]) -> Vec<String> {
    effects
        .iter()
        .filter_map(|e| match e {
            Effect::Call(HostCall::Http(request)) => {
                Some(format!("{} {}", request.method, request.url))
            }
            _ => None,
        })
        .collect()
}

#[test]
fn the_bridge_reads_again_what_a_frame_touched() {
    let mut bridge = adopted(&[("Bridge address", "10.0.0.2"), ("Application key", "k")]);
    let frame = r#"[{"type":"update","data":[{"id":"z","type":"zone"},{"id":"r","type":"room"}]},
        {"type":"delete","data":[{"rid":"s","rtype":"scene"},{"id":"z2","rtype":"zone"}]}]"#;
    let effects = HueBulb.on_stream(&mut bridge, &stream(frame));
    assert_eq!(
        urls(&effects),
        vec![
            "GET /clip/v2/resource/zone",
            "GET /clip/v2/resource/scene",
            "GET /clip/v2/resource/room",
        ]
    );
    let quiet = HueBulb.on_stream(&mut bridge, &stream(FRAME));
    assert_eq!(quiet.len(), 0);
    // Nothing behind the bridge reads anything, and nor does a bridge that is not set up.
    let mut bulb = adopted(&[("Light id", "L1"), ("Bridge address", "10.0.0.2")]);
    assert_eq!(HueBulb.on_stream(&mut bulb, &stream(frame)).len(), 0);
    assert_eq!(HueBulb.on_stream(&mut Instance::default(), &stream(frame)).len(), 0);
}

#[test]
fn sensors_and_controls_are_handed_every_update() {
    let mut sensor = adopted(&[("Motion id", "M1")]);
    let effects = HueBulb.on_stream(&mut sensor, &stream(FRAME));
    assert_eq!(effects.len(), 2);
    assert!(matches!(&effects[0], Effect::Sensor(v) if v.is_at("id", "L1")));
    assert!(matches!(&effects[1], Effect::Sensor(v) if v.is_at("id", "L2")));
    let mut dial = adopted(&[("Rotary id", "R1")]);
    let effects = HueBulb.on_stream(&mut dial, &stream(FRAME));
    assert!(matches!(&effects[1], Effect::Control(v) if v.is_at("id", "L2")));
}

#[test]
fn an_answer_is_picked_over_by_everything_behind_the_bridge() {
    let light = object(vec![
        ("id", text("L1")),
        ("on", object(vec![("on", JsonValue::Bool(true))])),
    ]);
    let args = record(vec![("body", object(vec![("data", list(vec![light]))]))]);
    let mut bulb = adopted(&[("Light id", "L1")]);
    let effects = HueBulb.on_event(&mut bulb, 0, "http_response", &args, false);
    assert_eq!(effects.len(), 3, "effects to remember, power and brightness");
    assert_eq!(bulb.scratch.get("on").and_then(JsonValue::as_bool), Some(true));
    assert_eq!(bulb.scratch.get("level").and_then(JsonValue::as_u64), Some(100));
    let mut other = adopted(&[("Light id", "L9")]);
    assert_eq!(HueBulb.on_event(&mut other, 0, "http_response", &args, false).len(), 0);
    assert_eq!(
        HueBulb.on_event(&mut other, 0, "http_response", &Record::new(), false).len(),
        0
    );
}

#[test]
fn the_bridge_learns_its_own_identity() {
    let mut bridge = adopted(&[("Bridge address", "10.0.0.2")]);
    let args = record(vec![("body", object(vec![("bridgeid", text("001788FFFE"))]))]);
    let effects = HueBulb.on_event(&mut bridge, 0, "http_response", &args, false);
    assert!(matches!(&effects[..], [Effect::SceneCollection]));
    assert_eq!(
        bridge.scratch.get("hue_bridge_id").and_then(JsonValue::as_str),
        Some("001788FFFE")
    );
}

#[test]
fn the_bridge_opens_the_stream_and_reads_each_collection_once() {
    let mut bridge = adopted(&[("Bridge address", "10.0.0.2"), ("Application key", "k")]);
    let calls = HueBulb.on_bind(&mut bridge);
    assert_eq!(calls.len(), 11);
    assert!(matches!(
        &calls[0],
        HostCall::Notify { proxy: 1, name, args }
            if name == "online_changed"
                && same_record(args, &record(vec![("online", JsonValue::Bool(true))]))
    ));
    let HostCall::Tx { control: 0, data } = &calls[1] else {
        panic!("the stream is opened first")
    };
    assert_eq!(
        std::str::from_utf8(data).unwrap(),
        "GET /eventstream/clip/v2 HTTP/1.1\r\nHost: 10.0.0.2\r\nAccept: text/event-stream\r\n\
         Cache-Control: no-cache\r\nhue-application-key: k\r\n\r\n"
    );
    let HostCall::Http(config) = &calls[2] else {
        panic!("then the identity is asked for")
    };
    assert_eq!((config.method.as_str(), config.url.as_str()), ("GET", "/api/config"));
    assert_eq!(config.headers.len(), 0);
    let reads: Vec<&str> = calls[3..]
        .iter()
        .map(|c| match c {
            HostCall::Http(r) => r.url.strip_prefix("/clip/v2/resource/").unwrap(),
            _ => panic!("only reads are left"),
        })
        .collect();
    assert_eq!(
        reads,
        vec![
            "light",
            "motion",
            "temperature",
            "light_level",
            "device_power",
            "zone",
            "room",
            "scene",
        ]
    );
    assert!(!reads.contains(&"button"), "an old press is not news");
}

#[test]
fn everything_behind_the_bridge_only_comes_online() {
    let mut sensor = adopted(&[
        ("Bridge address", "10.0.0.2"),
        ("Application key", "k"),
        ("Motion id", "M"),
        ("Temperature id", "T"),
        ("Light level id", "LL"),
    ]);
    let calls = HueBulb.on_bind(&mut sensor);
    assert_eq!(calls.len(), 3);
    for (i, call) in calls.iter().enumerate() {
        assert!(matches!(
            call,
            HostCall::Notify { proxy, name, .. }
                if *proxy == i as u32 + 1 && name == "online_changed"
        ));
    }
    // A bridge that nobody finished setting up asks for nothing either.
    assert_eq!(HueBulb.on_bind(&mut Instance::default()).len(), 1);
}
