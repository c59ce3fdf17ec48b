use hue_driver::adopt::{ask_about_scenes, plural};
use hue_driver::catalog::{CatalogAnswer, CatalogQuestion, ReadBack};
use hue_driver::flow::{catalog_question, field, phase, scene_question};
use hue_driver::host::HttpRequest;
use hue_driver::json::{JsonValue, Number, Record};
use hue_driver::setup::{Candidate, ImportedRule, ImportedScene, NextState, SetupStep, SCENE_CHOICE};
use hue_driver::HueBulb;

fn text(s: &str) -> JsonValue {
    JsonValue::String(s.to_string())
}

fn num(n: u64) -> JsonValue {
    JsonValue::Number(Number::PosInt(n))
}

fn record(entries: Vec<(&str, JsonValue)>) -> Record {
    let mut r = Record::new();
    for (k, v) in entries {
        r.insert(k, v);
    }
    r
}

fn object(entries: Vec<(&str, JsonValue)>) -> JsonValue {
    JsonValue::Object(record(entries))
}

fn list(items: Vec<JsonValue>) -> JsonValue {
    JsonValue::Array(items)
}

fn same_record(a: &Record, b: &Record) -> bool {
    a.entries.iter().all(|(k, _)| b.contains_key(k))
        && b.entries.iter().all(|(k, _)| match (a.get(k), b.get(k)) {
            (Some(x), Some(y)) => same(x, y),
            _ => false,
        })
}

/// A document read back by `serde_json`.
fn read(v: serde_json::Value) -> JsonValue {
    match v {
        serde_json::Value::Null => JsonValue::Null,
        serde_json::Value::Bool(b) => JsonValue::Bool(b),
        serde_json::Value::Number(n) => JsonValue::Number(match (n.as_u64(), n.as_i64()) {
            (Some(u), _) => Number::PosInt(u),
            (_, Some(i)) => Number::NegInt(i),
            _ => Number::Float(n.as_f64().unwrap().to_bits()),
        }),
        serde_json::Value::String(s) => JsonValue::String(s),
        serde_json::Value::Array(a) => JsonValue::Array(a.into_iter().map(read).collect()),
        serde_json::Value::Object(o) => JsonValue::Object(Record {
            entries: o.into_iter().map(|(k, v)| (k, read(v))).collect(),
        }),
    }
}

/// The document that a request carries as text.
fn body_of(request: &HttpRequest) -> JsonValue {
    read(serde_json::from_str(request.body.as_deref().expect("request body")).unwrap())
}

/// Whether two values are the same document; the order of members does not count.
fn same(a: &JsonValue, b: &JsonValue) -> bool {
    match (a, b) {
        (JsonValue::Null, JsonValue::Null) => true,
        (JsonValue::Bool(x), JsonValue::Bool(y)) => x == y,
        (JsonValue::Number(x), JsonValue::Number(y)) => x == y,
        (JsonValue::String(x), JsonValue::String(y)) => x == y,
        (JsonValue::Array(x), JsonValue::Array(y)) => {
            x.len() == y.len() && x.iter().zip(y.iter()).all(|(p, q)| same(p, q))
        }
        (JsonValue::Object(x), JsonValue::Object(y)) => same_record(x, y),
        _ => false,
    }
}

fn nothing_read() -> ReadBack {
    ReadBack { chosen: vec![], devices: vec![], rules: vec![], scenes: vec![] }
}

fn no_answer() -> CatalogAnswer {
    CatalogAnswer {
        catalog: vec![],
        names: JsonValue::Null,
        rooms: Record::new(),
        accessories: vec![],
        rules: vec![],
        scenes: vec![],
    }
}

fn take(state: &JsonValue, input: Vec<(&str, JsonValue)>) -> (SetupStep, NextState) {
    HueBulb.step(state, &record(input), nothing_read(), no_answer())
}

fn at_phase(phase: &str, more: Vec<(&str, JsonValue)>) -> JsonValue {
    let mut state = record(vec![("phase", text(phase))]);
    for (k, v) in more {
        state.insert(k, v);
    }
    JsonValue::Object(state)
}

fn document(next: NextState) -> JsonValue {
    match next {
        NextState::Document(state) => state,
        NextState::SceneChoice { .. } => panic!("expected a document"),
    }
}

fn fetched(step: &SetupStep) -> (&HttpRequest, &str) {
    match step {
        SetupStep::Fetch { request, note } => (request, note),
        _ => panic!("expected a request"),
    }
}

fn failure(outcome: (SetupStep, NextState)) -> String {
    assert!(same(&document(outcome.1), &JsonValue::Null));
    match outcome.0 {
        SetupStep::Failed { reason } => reason,
        _ => panic!("expected a failure"),
    }
}

fn candidate(label: &str, driver: &str) -> Candidate {
    Candidate {
        label: label.into(),
        kind: "light".into(),
        driver_id: driver.into(),
        capabilities: Record::new(),
        properties: record(vec![
            ("Bridge address", text("10.0.0.2")),
            ("Application key", text("k")),
            ("Light id", text(label)),
        ]),
        verified: "".into(),
        room: "Hall".into(),
    }
}

fn scene(title: &str) -> ImportedScene {
    ImportedScene { title: title.into(), scene: text(title) }
}

#[test]
fn setup_starts_by_asking_for_an_address() {
    let (step, next) = take(&JsonValue::Null, vec![]);
    let SetupStep::Form { title, body, fields } = step else {
        panic!("expected a form")
    };
    assert_eq!(title, "Find your Hue bridge");
    assert!(body.starts_with("Nothing announced itself on the network, so enter the bridge's address."));
    assert!(body.ends_with("Settings → My Hue System → the (i) beside your bridge."));
    assert_eq!(fields.len(), 1);
    assert_eq!(fields[0].name, "address");
    assert_eq!(fields[0].label, "Bridge address");
    assert_eq!(fields[0].help, "for example 192.168.1.42");
    assert!(fields[0].required && fields[0].default.is_none() && fields[0].options.is_empty());
    assert!(same(&document(next), &object(vec![("phase", text("probe"))])));
    assert_eq!(phase(&JsonValue::Null), "start");
    assert_eq!(field("a", "b", "c").kind, "string");
}

#[test]
fn bridges_that_announced_themselves_are_rows_to_pick() {
    let found = list(vec![
        object(vec![
            ("address", text("192.168.1.42")),
            ("name", text("Philips Hue - 1A2B._hue._tcp.local.")),
            ("txt", object(vec![("modelid", text("BSB002")), ("bridgeid", text("1a2b"))])),
        ]),
        object(vec![("name", text("no address"))]),
        object(vec![("address", text("127.0.0.1"))]),
        object(vec![("address", text("10.0.0.9"))]),
    ]);
    let (step, next) = take(&object(vec![("mdns_candidates", found)]), vec![]);
    let SetupStep::Pick { title, columns, rows, field, manual, .. } = step else {
        panic!("expected a table")
    };
    assert_eq!(title, "Found 3 Hue bridges");
    assert_eq!(columns, vec!["Bridge", "Address", "Model"]);
    assert_eq!(field, "address");
    assert_eq!(manual.unwrap().name, "address");
    assert_eq!(rows[0].value, "192.168.1.42");
    assert_eq!(rows[0].cells, vec!["Philips Hue - 1A2B", "192.168.1.42", "BSB002"]);
    assert_eq!(rows[0].note, "id 1a2b");
    assert_eq!(rows[1].cells, vec!["Hue bridge", "127.0.0.1", "—"]);
    assert_eq!(rows[1].note, "on this machine only");
    assert_eq!(rows[2].note, "");
    assert_eq!(document(next).str_at("phase"), Some("probe"));
}

#[test]
fn the_address_is_trimmed_and_the_bridge_checked() {
    let (step, next) =
        take(&at_phase("probe", vec![]), vec![("address", text(" \u{a0}10.0.0.2\t\n"))]);
    let (request, note) = fetched(&step);
    assert_eq!((request.method.as_str(), request.url.as_str()), ("GET", "https://10.0.0.2/api/config"));
    assert!(request.headers.is_empty() && request.body.is_none());
    assert_eq!(note, "checking the bridge");
    assert!(same(
        &document(next),
        &object(vec![("phase", text("probed")), ("address", text("10.0.0.2"))]),
    ));
    let (again, _) = take(&at_phase("probe", vec![]), vec![]);
    assert!(matches!(again, SetupStep::Form { .. }));
}

#[test]
fn only_a_bridge_is_taken_for_a_bridge() {
    let state = at_phase("probed", vec![("address", text("10.0.0.2"))]);
    let answer = object(vec![("modelid", text("BSB002")), ("name", text("Attic"))]);
    let (step, next) = take(&state, vec![("response", answer)]);
    assert!(matches!(
        step,
        SetupStep::Instruct { title, body, continue_label }
            if title == "Press the link button on Attic"
                && body == "The round button on top." && continue_label == "I pressed it"
    ));
    assert!(same(
        &document(next),
        &object(vec![
            ("phase", text("pair")),
            ("address", text("10.0.0.2")),
            ("name", text("Attic")),
        ]),
    ));
    for answer in [object(vec![("modelid", text("XBSB"))]), JsonValue::Null] {
        assert_eq!(
            failure(take(&state, vec![("response", answer)])),
            "10.0.0.2 did not answer as a Hue bridge. Check the address — the Hue app shows it \
             under Settings → My Hue System."
        );
    }
}

#[test]
fn a_key_is_asked_for_until_the_button_is_pressed() {
    let refused = || {
        list(vec![object(vec![(
            "error",
            object(vec![("description", text("link button not pressed"))]),
        )])])
    };
    let mut state = at_phase("pair", vec![("address", text("10.0.0.2"))]);
    let mut tries = 0;
    let reason = loop {
        let (step, next) = take(&state, vec![]);
        let (request, _) = fetched(&step);
        assert_eq!((request.method.as_str(), request.url.as_str()), ("POST", "https://10.0.0.2/api"));
        assert!(same(
            &body_of(request),
            &object(vec![
                ("devicetype", text("juno#controller")),
                ("generateclientkey", JsonValue::Bool(true)),
            ]),
        ));
        tries += 1;
        let asked = document(next);
        assert_eq!(asked.get("attempt").and_then(JsonValue::as_u64), Some(tries));
        let (step, next) = take(&asked, vec![("response", refused())]);
        match step {
            SetupStep::Wait { retry_ms, .. } => {
                assert_eq!(retry_ms, 1000);
                state = document(next);
            }
            SetupStep::Failed { reason } => break reason,
            _ => panic!("expected to wait"),
        }
    };
    assert_eq!(tries, 30);
    assert_eq!(reason, "the link button was not pressed in time — start again");
}

#[test]
fn a_key_leads_to_the_devices_and_anything_else_ends_it() {
    let state = at_phase("paired", vec![("address", text("10.0.0.2"))]);
    let success = list(vec![object(vec![(
        "success",
        object(vec![("username", text("secret-name"))]),
    )])]);
    let (step, next) = take(&state, vec![("response", success)]);
    let (request, note) = fetched(&step);
    assert_eq!(request.url, "https://10.0.0.2/clip/v2/resource/device");
    assert_eq!(
        request.headers,
        vec![("hue-application-key".to_string(), "secret-name".to_string())]
    );
    assert_eq!(note, "reading what is paired to the bridge");
    assert!(same(
        &document(next),
        &object(vec![
            ("phase", text("devices")),
            ("address", text("10.0.0.2")),
            ("key", text("secret-name")),
        ]),
    ));
    let broken = list(vec![object(vec![(
        "error",
        object(vec![("description", text("internal error"))]),
    )])]);
    assert_eq!(failure(take(&state, vec![("response", broken)])), "internal error");
    assert_eq!(failure(take(&state, vec![])), "the bridge did not answer");
    assert_eq!(
        failure(take(&state, vec![("response", object(vec![]))])),
        "the bridge did not answer"
    );
}

#[test]
fn the_collections_are_read_in_order_and_what_is_browsed_is_carried() {
    let mut state = at_phase(
        "devices",
        vec![
            ("address", text("10.0.0.2")),
            ("key", text("k")),
            ("browse", JsonValue::Bool(true)),
            ("parent", num(7)),
        ],
    );
    for (phase, collection, note) in [
        ("buttons", "button", "reading the buttons"),
        ("rooms", "room", "reading the rooms"),
        ("zones", "zone", "reading the zones"),
        ("behaviors", "behavior_instance", "reading what the switches already control"),
        ("hue_scenes", "scene", "reading the scenes"),
        ("lights", "light", "reading the light list"),
    ] {
        let answer = CatalogAnswer {
            catalog: vec![text(phase)],
            names: object(vec![("r1", text("Hall"))]),
            ..no_answer()
        };
        let input = record(vec![("response", text("scenes"))]);
        let (step, next) = HueBulb.step(&state, &input, nothing_read(), answer);
        let (request, said) = fetched(&step);
        assert_eq!(request.url, format!("https://10.0.0.2/clip/v2/resource/{collection}"));
        assert_eq!(request.headers[0].1, "k");
        assert_eq!(said, note);
        state = document(next);
        assert_eq!(state.str_at("phase"), Some(phase));
        assert_eq!(state.str_at("key"), Some("k"));
        assert_eq!(state.get("browse").and_then(JsonValue::as_bool), Some(true));
        assert_eq!(state.get("parent").and_then(JsonValue::as_u64), Some(7));
    }
    assert!(same(state.get("catalog").unwrap(), &list(vec![text("hue_scenes")])));
    assert!(same(state.get("rooms").unwrap(), &object(vec![("r1", text("Hall"))])));
    assert!(same(state.get("hue_scenes").unwrap(), &text("scenes")));
}

#[test]
fn browsing_goes_straight_to_the_list() {
    let browse = |address: &str, key: &str| {
        object(vec![
            ("browse", JsonValue::Bool(true)),
            ("Bridge address", text(address)),
            ("Application key", text(key)),
        ])
    };
    let (step, next) = take(&browse("10.0.0.2", "k"), vec![]);
    assert_eq!(fetched(&step).0.url, "https://10.0.0.2/clip/v2/resource/device");
    assert!(same(
        &document(next),
        &object(vec![
            ("phase", text("devices")),
            ("address", text("10.0.0.2")),
            ("key", text("k")),
            ("browse", JsonValue::Bool(true)),
            ("parent", JsonValue::Null),
        ]),
    ));
    for state in [browse("", "k"), browse("10.0.0.2", "")] {
        assert_eq!(
            failure(take(&state, vec![])),
            "this bridge has no address or key set — pair it first"
        );
    }
}

fn lights_state() -> JsonValue {
    at_phase(
        "lights",
        vec![("address", text("10.0.0.2")), ("key", text("k")), ("hue_scenes", text("raw"))],
    )
}

fn light(id: &str, name: &str, on: bool) -> JsonValue {
    object(vec![
        ("id", text(id)),
        ("metadata", object(vec![("name", text(name))])),
        ("on", object(vec![("on", JsonValue::Bool(on))])),
        ("dimming", object(vec![])),
    ])
}

#[test]
fn lights_are_offered_by_name_and_accessories_after_them() {
    let response = object(vec![(
        "data",
        list(vec![
            light("l1", "Porch", true),
            light("l2", "Attic", false),
            object(vec![("id", text("l3"))]),
            object(vec![("metadata", object(vec![("name", text("no id"))]))]),
            light("l4", "Attic", true),
        ]),
    )]);
    let input = record(vec![("response", response)]);
    let question = catalog_question(&lights_state(), &input, vec![]);
    assert!(matches!(
        question,
        CatalogQuestion::Offer { ref lights, ref address, ref key, .. }
            if lights == &["l1", "l2", "l3", "l4"] && address == "10.0.0.2" && key == "k"
    ));
    let answer = CatalogAnswer {
        rooms: record(vec![("l1", text("Garden"))]),
        accessories: vec![candidate("A dimmer", "signify.hue.control")],
        ..no_answer()
    };
    let (step, next) = HueBulb.step(&lights_state(), &input, nothing_read(), answer);
    let SetupStep::Choose { title, body, options, multiple } = step else {
        panic!("expected a choice")
    };
    assert_eq!(title, "4 light(s) and 1 accessory on this bridge");
    assert_eq!(body, "Anything the bridge cannot reach is marked.");
    assert!(multiple);
    let labels: Vec<&str> = options.iter().map(|c| c.label.as_str()).collect();
    assert_eq!(labels, vec!["Attic", "Attic", "Hue light", "Porch", "A dimmer"]);
    let ids: Vec<&str> = options
        .iter()
        .take(4)
        .map(|c| c.properties.get("Light id").and_then(JsonValue::as_str).unwrap())
        .collect();
    assert_eq!(ids, vec!["l2", "l4", "l3", "l1"], "the same name stays in the order it came");
    assert_eq!(options[3].room, "Garden");
    assert_eq!(options[3].verified, "dimmable");
    assert_eq!(options[3].driver_id, "signify.hue.light");
    assert_eq!(options[2].room, "");
    assert_eq!(options[2].verified, "cannot be reached — is it powered?");
    let state = document(next);
    assert_eq!(state.str_at("phase"), Some("chosen"));
    assert_eq!(state.str_at("hue_scenes"), Some("raw"));
    assert_eq!(state.get("browse").and_then(JsonValue::as_bool), Some(false));
}

#[test]
fn a_title_counts_what_there_is() {
    let offer = |data: Vec<JsonValue>, extras: usize| {
        let answer = CatalogAnswer {
            accessories: (0..extras).map(|_| candidate("x", "d")).collect(),
            ..no_answer()
        };
        let input = record(vec![("response", object(vec![("data", list(data))]))]);
        HueBulb.step(&lights_state(), &input, nothing_read(), answer)
    };
    let title = |outcome: (SetupStep, NextState)| match outcome.0 {
        SetupStep::Choose { title, .. } => title,
        _ => panic!("expected a choice"),
    };
    assert_eq!(title(offer(vec![light("l1", "a", true)], 0)), "1 light(s) on this bridge");
    assert_eq!(title(offer(vec![], 1)), "1 accessory on this bridge");
    assert_eq!(title(offer(vec![], 2)), "2 accessories on this bridge");
    assert_eq!(
        failure(offer(vec![], 0)),
        "the bridge reported nothing paired to it — add your lights and accessories in the Hue \
         app first"
    );
    assert_eq!((plural(1), plural(0), plural(12)), ("y", "ies", "ies"));
}

#[test]
fn a_refused_light_list_ends_setup() {
    let errors = list(vec![object(vec![("description", text("unauthorized user"))])]);
    let input = || vec![("response", object(vec![("errors", errors.clone())]))];
    assert_eq!(
        failure(take(&lights_state(), input())),
        "the bridge refused the light list: unauthorized user"
    );
    assert!(matches!(
        catalog_question(&lights_state(), &record(input()), vec![]),
        CatalogQuestion::Nothing
    ));
}

fn chosen_state(browse: bool) -> JsonValue {
    at_phase(
        "chosen",
        vec![
            ("address", text("10.0.0.2")),
            ("key", text("k")),
            ("catalog", list(vec![text("entry")])),
            ("browse", JsonValue::Bool(browse)),
        ],
    )
}

fn picked() -> Vec<Candidate> {
    vec![candidate("a", "signify.hue.light"), candidate("b", "signify.hue.control")]
}

fn finish(browse: bool) -> Vec<Candidate> {
    let read = ReadBack { chosen: picked(), ..nothing_read() };
    let answer = CatalogAnswer {
        rules: vec![ImportedRule { rule: text("rule") }],
        ..no_answer()
    };
    let (step, next) = HueBulb.step(&chosen_state(browse), &Record::new(), read, answer);
    assert!(same(&document(next), &JsonValue::Null));
    match step {
        SetupStep::Done { devices, rules, scenes } => {
            assert_eq!((rules.len(), scenes.len()), (1, 0));
            devices
        }
        _ => panic!("expected the end"),
    }
}

#[test]
fn setting_up_adopts_the_bridge_first() {
    let devices = finish(false);
    assert_eq!(devices.len(), 3);
    assert_eq!(devices[0].label, "Hue Bridge");
    assert_eq!(devices[0].kind, "bridge");
    assert_eq!(devices[0].driver_id, "signify.hue.bridge");
    assert_eq!(devices[0].verified, "2 device(s) behind it");
    assert!(same_record(
        &devices[0].properties,
        &record(vec![("Bridge address", text("10.0.0.2")), ("Application key", text("k"))]),
    ));
    for (device, was) in devices[1..].iter().zip(picked()) {
        assert_eq!(device.driver_id, was.driver_id);
        assert_eq!(device.room, "Hall");
        assert!(same_record(&device.properties, &record(vec![("Light id", text(&was.label))])));
    }
    let question = catalog_question(&chosen_state(false), &Record::new(), picked());
    assert!(matches!(
        question,
        CatalogQuestion::Adopt { ref devices, ref catalog, scenes: None }
            if devices.len() == 3 && catalog.len() == 1 && devices[0].kind == "bridge"
    ));
}

#[test]
fn browsing_never_offers_the_bridge_again() {
    let devices = finish(true);
    let labels: Vec<&str> = devices.iter().map(|c| c.label.as_str()).collect();
    assert_eq!(labels, vec!["a", "b"]);
    assert!(devices.iter().all(|c| c.kind != "bridge"));
    assert!(devices.iter().all(|c| !c.properties.contains_key("Application key")));
    let question = catalog_question(&chosen_state(true), &Record::new(), picked());
    assert!(matches!(
        question,
        CatalogQuestion::Adopt { ref devices, .. }
            if devices.len() == 2 && devices[0].properties.contains_key("Bridge address")
    ));
}

#[test]
fn scenes_are_asked_about_only_if_there_are_any() {
    let one = ask_about_scenes(picked(), vec![], vec![scene("Relax")]);
    let SetupStep::Form { title, body, fields } = one.0 else {
        panic!("expected a form")
    };
    assert_eq!(title, "Bring over 1 scene?");
    assert_eq!(
        body,
        "The bridge has 1 saved — Relax. They stay owned by Hue: Juno can recall them statically \
         or dynamically, but can never edit or delete them. Skipping this changes nothing else; \
         the lights and remotes are added either way."
    );
    assert_eq!(fields[0].kind, "choice");
    assert_eq!(fields[0].options, vec!["Bring them over", "Leave them"]);
    assert!(same(fields[0].default.as_ref().unwrap(), &text("Bring them over")));
    assert!(matches!(
        one.1,
        NextState::SceneChoice { ref devices, ref scenes, .. }
            if devices.len() == 2 && scenes.len() == 1
    ));

    let many = ["a", "b", "c", "d", "e"].iter().map(|t| scene(t)).collect();
    let (step, _) = ask_about_scenes(vec![], vec![], many);
    assert!(matches!(
        step,
        SetupStep::Form { ref title, ref body, .. }
            if title == "Bring over 5 scenes?"
                && body.starts_with("The bridge has 5 saved — a, b, c, d and others. They stay")
    ));
    let four = ["a", "b", "c", "d"].iter().map(|t| scene(t)).collect();
    let (step, _) = ask_about_scenes(vec![], vec![], four);
    assert!(matches!(
        step,
        SetupStep::Form { ref body, .. } if body.contains("saved — a, b, c, d. They")
    ));
    assert!(matches!(
        ask_about_scenes(picked(), vec![], vec![]),
        (SetupStep::Done { .. }, NextState::Document(JsonValue::Null))
    ));
}

#[test]
fn leaving_the_scenes_keeps_everything_else() {
    for (choice, count) in [("Bring them over", 1), ("Leave them", 0)] {
        let read = ReadBack {
            devices: picked(),
            rules: vec![ImportedRule { rule: text("rule") }],
            scenes: vec![scene("Relax")],
            ..nothing_read()
        };
        let input = record(vec![("scenes", text(choice))]);
        let (step, _) = HueBulb.step(&at_phase("scene_choice", vec![]), &input, read, no_answer());
        assert!(matches!(
            step,
            SetupStep::Done { ref devices, ref rules, ref scenes }
                if devices.len() == 2 && rules.len() == 1 && scenes.len() == count
        ));
    }
}

#[test]
fn an_unknown_phase_ends_setup() {
    assert_eq!(failure(take(&at_phase("nowhere", vec![]), vec![])), "unknown setup phase `nowhere`");
}

#[test]
fn the_catalog_is_asked_what_each_phase_needs() {
    let ask = |phase: &str| {
        let state = at_phase(
            phase,
            vec![("catalog", list(vec![text("entry")])), ("rooms", text("names"))],
        );
        catalog_question(&state, &record(vec![("response", text("answer"))]), vec![])
    };
    assert!(matches!(ask("start"), CatalogQuestion::Nothing));
    assert!(matches!(
        ask("devices"),
        CatalogQuestion::Devices { response: Some(ref r) } if same(r, &text("answer"))
    ));
    assert!(matches!(
        ask("buttons"),
        CatalogQuestion::Buttons { ref catalog, response: Some(_) } if catalog.len() == 1
    ));
    assert!(matches!(ask("rooms"), CatalogQuestion::Rooms { ref catalog, .. } if catalog.len() == 1));
    assert!(matches!(
        ask("zones"),
        CatalogQuestion::Zones { rooms: Some(ref r), .. } if same(r, &text("names"))
    ));
    assert!(matches!(
        ask("behaviors"),
        CatalogQuestion::Behaviors { ref rooms, .. } if same(rooms, &text("names"))
    ));
    assert!(matches!(ask("hue_scenes"), CatalogQuestion::Nothing));
}

#[test]
fn every_request_of_setup_is_https_and_discovery_is_setup() {
    let known = || vec![("address", text("10.0.0.2")), ("key", text("k"))];
    let success = || {
        list(vec![object(vec![("success", object(vec![("username", text("n"))]))])])
    };
    let mut requests = 0;
    for name in [
        "start", "probe", "probed", "pair", "paired", "devices", "buttons", "rooms", "zones",
        "behaviors", "hue_scenes", "lights", "chosen", "nowhere",
    ] {
        let state = at_phase(name, known());
        let input = record(vec![("response", success())]);
        let (found, _) = HueBulb.discover("one", &state, &input, nothing_read(), no_answer());
        let (set, _) = HueBulb.setup("other", &state, &input, nothing_read(), no_answer());
        assert_eq!(format!("{found:?}"), format!("{set:?}"));
        if let SetupStep::Fetch { request, .. } = found {
            requests += 1;
            assert!(request.url.starts_with("https://10.0.0.2/"), "{name}");
        }
    }
    assert_eq!(requests, 9);
}

#[test]
fn the_open_question_is_answered_next() {
    let state = scene_question(text("devices"), text("rules"), text("scenes"));
    assert_eq!(phase(&state), SCENE_CHOICE);
    assert_eq!(SCENE_CHOICE, "scene_choice");
    assert_eq!(state.str_at("devices"), Some("devices"));
    assert_eq!(state.str_at("rules"), Some("rules"));
    assert_eq!(state.str_at("scenes"), Some("scenes"));
    let read = ReadBack { devices: picked(), ..nothing_read() };
    let (step, _) = HueBulb.step(&state, &Record::new(), read, no_answer());
    assert!(matches!(step, SetupStep::Done { ref devices, .. } if devices.len() == 2));
}
