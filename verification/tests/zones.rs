use hue_driver::group::{
    group_light_ids, group_status, GroupDisposition, GroupMember, GroupOperation, GroupRequest,
    GroupResponse,
};
use hue_driver::group_command::{member_is_on, member_last_level, validated_grouped_light};
use hue_driver::host::{Effect, HostCall, HttpRequest, Instance};
use hue_driver::json::{JsonValue, Number, Record};
use hue_driver::light::{level_body, power_body, Pair};
use hue_driver::pending::finish_group_pending;
use hue_driver::zone::{
    cached_zone, group_link, owned_zone_name, remove_group_link, set_group_link, zone_grouped_light,
    zone_light_ids, zone_name, HUE_BRIDGE_ID, HUE_GROUP_PENDING, HUE_GROUP_PROBLEM, HUE_ZONES,
};
use hue_driver::HueBulb;

fn text(s: &str) -> JsonValue {
    JsonValue::String(s.to_string())
}

fn num(n: u64) -> JsonValue {
    JsonValue::Number(Number::PosInt(n))
}

fn record(entries: Vec<(&str, JsonValue)>) -> Record {
    let mut r = Record::new();
    for (k, v) in entries {
        r.insert(k, v);
    }
    r
}

fn object(entries: Vec<(&str, JsonValue)>) -> JsonValue {
    JsonValue::Object(record(entries))
}

fn list(items: Vec<JsonValue>) -> JsonValue {
    JsonValue::Array(items)
}

fn same_record(a: &Record, b: &Record) -> bool {
    a.entries.iter().all(|(k, _)| b.contains_key(k))
        && b.entries.iter().all(|(k, _)| match (a.get(k), b.get(k)) {
            (Some(x), Some(y)) => same(x, y),
            _ => false,
        })
}

/// A document read back by `serde_json`.
fn read(v: serde_json::Value) -> JsonValue {
    match v {
        serde_json::Value::Null => JsonValue::Null,
        serde_json::Value::Bool(b) => JsonValue::Bool(b),
        serde_json::Value::Number(n) => JsonValue::Number(match (n.as_u64(), n.as_i64()) {
            (Some(u), _) => Number::PosInt(u),
            (_, Some(i)) => Number::NegInt(i),
            _ => Number::Float(n.as_f64().unwrap().to_bits()),
        }),
        serde_json::Value::String(s) => JsonValue::String(s),
        serde_json::Value::Array(a) => JsonValue::Array(a.into_iter().map(read).collect()),
        serde_json::Value::Object(o) => JsonValue::Object(Record {
            entries: o.into_iter().map(|(k, v)| (k, read(v))).collect(),
        }),
    }
}

/// The document that a request carries as text.
fn body_of(request: &HttpRequest) -> JsonValue {
    read(serde_json::from_str(request.body.as_deref().expect("request body")).unwrap())
}

/// Whether two values are the same document; the order of members does not count.
fn same(a: &JsonValue, b: &JsonValue) -> bool {
    match (a, b) {
        (JsonValue::Null, JsonValue::Null) => true,
        (JsonValue::Bool(x), JsonValue::Bool(y)) => x == y,
        (JsonValue::Number(x), JsonValue::Number(y)) => x == y,
        (JsonValue::String(x), JsonValue::String(y)) => x == y,
        (JsonValue::Array(x), JsonValue::Array(y)) => {
            x.len() == y.len() && x.iter().zip(y.iter()).all(|(p, q)| same(p, q))
        }
        (JsonValue::Object(x), JsonValue::Object(y)) => same_record(x, y),
        _ => false,
    }
}

const ZONE: &str = "11111111-1111-1111-1111-111111111111";
const GROUPED: &str = "22222222-2222-2222-2222-222222222222";

fn nowhere() -> Pair {
    Pair { first: Number::Float(0), second: Number::Float(0) }
}

fn child(rid: &str, rtype: &str) -> JsonValue {
    object(vec![("rid", text(rid)), ("rtype", text(rtype))])
}

fn zone(name: &str, children: Vec<JsonValue>) -> JsonValue {
    object(vec![
        ("id", text(ZONE)),
        ("type", text("zone")),
        ("metadata", object(vec![("name", text(name))])),
        ("children", list(children)),
        ("services", list(vec![child(GROUPED, "grouped_light")])),
    ])
}

fn both() -> Vec<JsonValue> {
    vec![child("light-a", "light"), child("light-b", "light")]
}

fn bridge() -> Instance {
    let mut inst = Instance::new(10);
    inst.properties.insert("Bridge address", text("192.0.2.1"));
    inst.properties.insert("Application key", text("key"));
    inst.scratch.insert(HUE_BRIDGE_ID, text("BRIDGE-A"));
    inst.scratch.insert(HUE_ZONES, list(vec![zone("Upstairs", both())]));
    inst
}

fn member(device: u32, id: &str) -> GroupMember {
    let mut instance = Instance::new(device);
    instance.properties.insert("Light id", text(id));
    instance.scratch.insert("level", num(42));
    instance.scratch.insert("on", JsonValue::Bool(true));
    GroupMember { device, proxy: 1, instance, state: Record::new() }
}

fn request(operation: GroupOperation) -> GroupRequest {
    GroupRequest {
        group: 30,
        name: "Landing".into(),
        state: Record::new(),
        members: vec![member(20, "light-a"), member(21, "light-b")],
        operation,
    }
}

fn ask(inst: &mut Instance, operation: GroupOperation) -> GroupResponse {
    HueBulb.on_group(inst, &request(operation), nowhere())
}

fn command(inst: &mut Instance, command: &str, args: Record) -> GroupResponse {
    ask(inst, GroupOperation::Command { command: command.into(), args })
}

fn http(response: &GroupResponse) -> &HttpRequest {
    let HostCall::Http(request) = &response.calls[0] else {
        panic!("expected one HTTP call")
    };
    request
}

fn problem(response: &GroupResponse) -> &str {
    assert_eq!(response.disposition, GroupDisposition::Refused);
    assert!(response.calls.is_empty());
    assert!(response.members.is_empty());
    response.problem.as_deref().unwrap()
}

fn noted(inst: &Instance) -> Option<&str> {
    inst.scratch.get(HUE_GROUP_PROBLEM).and_then(JsonValue::as_str)
}

fn answer(inst: &mut Instance, method: &str, status: u64, body: JsonValue) -> Vec<Effect> {
    let args = record(vec![
        ("method", text(method)),
        ("url", text("https://192.0.2.1/clip/v2/resource/zone")),
        ("status", num(status)),
        ("body", body),
    ]);
    HueBulb.on_event(inst, 0, "http_response", &args, false)
}

#[test]
fn an_exact_existing_zone_is_borrowed_and_only_its_grouped_light_is_commanded() {
    let mut inst = bridge();
    let linked = ask(&mut inst, GroupOperation::Link { resource: ZONE.into() });
    assert_eq!(linked.disposition, GroupDisposition::Handled);
    assert_eq!(group_link(&inst, 30).unwrap().str_at("ownership"), Some("external"));

    let command = command(&mut inst, "off", Record::new());
    assert_eq!(command.disposition, GroupDisposition::Handled);
    assert_eq!(command.calls.len(), 1);
    assert_eq!(command.members.len(), 2);
    assert!(http(&command).url.ends_with(&format!("/grouped_light/{GROUPED}")));
    assert!(!http(&command).url.contains("/resource/zone/"));

    let sync = ask(&mut inst, GroupOperation::Synchronize);
    assert_eq!(sync.disposition, GroupDisposition::Refused);
    assert!(sync.calls.is_empty(), "a borrowed zone must never be written");
}

#[test]
fn changed_external_membership_falls_back_without_sending_a_group_request() {
    let mut inst = bridge();
    ask(&mut inst, GroupOperation::Link { resource: ZONE.into() });
    inst.scratch.insert(
        HUE_ZONES,
        list(vec![zone("Upstairs", vec![child("light-a", "light")])]),
    );

    let response = command(&mut inst, "on", Record::new());
    assert_eq!(response.disposition, GroupDisposition::Refused);
    assert!(response.calls.is_empty());
    assert!(response.problem.unwrap().contains("membership changed"));
}

#[test]
fn only_a_created_zone_gets_the_juno_ownership_record_and_can_be_synchronized() {
    let mut inst = bridge();
    inst.scratch.insert(HUE_ZONES, list(vec![]));
    let create = ask(&mut inst, GroupOperation::Create);
    assert_eq!(create.disposition, GroupDisposition::Queued);
    assert!(http(&create).url.ends_with("/clip/v2/resource/zone"));
    assert_eq!(http(&create).method, "POST");
    let posted = body_of(http(&create));
    let created_name = posted.get("metadata").unwrap().str_at("name").unwrap();
    assert!(created_name.contains("[Juno 0000001E]"));

    let body = object(vec![(
        "data",
        list(vec![object(vec![("rid", text(ZONE)), ("rtype", text("zone"))])]),
    )]);
    let refresh = answer(&mut inst, "POST", 200, body);
    assert_eq!(refresh.len(), 1);

    let inventory = object(vec![("data", list(vec![zone(created_name, both())]))]);
    answer(&mut inst, "GET", 200, inventory);
    assert_eq!(group_link(&inst, 30).unwrap().str_at("ownership"), Some("juno"));

    let sync = ask(&mut inst, GroupOperation::Synchronize);
    assert_eq!(sync.disposition, GroupDisposition::Queued);
    assert_eq!(http(&sync).method, "PUT");
    assert!(http(&sync).url.ends_with(&format!("/resource/zone/{ZONE}")));
}

/// A bridge on which the group's own zone has been made and confirmed.
fn owning() -> Instance {
    let mut inst = bridge();
    inst.scratch.insert(HUE_ZONES, list(vec![]));
    ask(&mut inst, GroupOperation::Create);
    answer(
        &mut inst,
        "POST",
        200,
        object(vec![("data", list(vec![child(ZONE, "zone")]))]),
    );
    answer(
        &mut inst,
        "GET",
        200,
        object(vec![("data", list(vec![zone("Landing [Juno 0000001E]", both())]))]),
    );
    inst
}

#[test]
fn what_is_written_for_a_group_is_exact() {
    let mut inst = bridge();
    inst.scratch.insert(HUE_ZONES, list(vec![]));
    let create = ask(&mut inst, GroupOperation::Create);
    let wanted = object(vec![
        (
            "metadata",
            object(vec![
                ("name", text("Landing [Juno 0000001E]")),
                ("archetype", text("other")),
            ]),
        ),
        ("children", list(both())),
    ]);
    assert!(same(&body_of(http(&create)), &wanted));
    assert!(same(&create.status, &object(vec![("pending", text("create"))])));
    assert!(same(
        inst.scratch.get(HUE_GROUP_PENDING).unwrap(),
        &object(vec![
            ("operation", text("create")),
            ("group", num(30)),
            ("bridge_id", text("BRIDGE-A")),
            ("light_ids", list(vec![text("light-a"), text("light-b")])),
            ("token", text("[Juno 0000001E]")),
            ("name", text("Landing [Juno 0000001E]")),
        ]),
    ));

    let mut inst = owning();
    assert!(same(
        &group_link(&inst, 30).unwrap(),
        &object(vec![
            ("ownership", text("juno")),
            ("bridge_id", text("BRIDGE-A")),
            ("zone", text(ZONE)),
            ("grouped_light", text(GROUPED)),
            ("light_ids", list(vec![text("light-a"), text("light-b")])),
            ("token", text("[Juno 0000001E]")),
            ("name", text("Landing [Juno 0000001E]")),
        ]),
    ));
    assert!(!inst.scratch.contains_key(HUE_GROUP_PENDING));
    let sync = ask(&mut inst, GroupOperation::Synchronize);
    assert!(same(
        &body_of(http(&sync)),
        &object(vec![
            ("metadata", object(vec![("name", text("Landing [Juno 0000001E]"))])),
            ("children", list(both())),
        ]),
    ));
    let refresh = answer(&mut inst, "put", 200, JsonValue::Null);
    assert!(matches!(
        &refresh[..],
        [Effect::Call(HostCall::Http(r))] if r.method == "GET" && r.url == "/clip/v2/resource/zone"
    ));
}

#[test]
fn a_status_says_how_the_group_stands() {
    let mut inst = bridge();
    let before = ask(&mut inst, GroupOperation::Status);
    assert_eq!(before.disposition, GroupDisposition::Handled);
    let shown = |owned: bool| {
        list(vec![object(vec![
            ("resource", text(ZONE)),
            ("name", text("Upstairs")),
            ("members", list(vec![text("light-a"), text("light-b")])),
            ("exact_match", JsonValue::Bool(true)),
            ("controllable", JsonValue::Bool(true)),
            ("juno_owned", JsonValue::Bool(owned)),
        ])])
    };
    assert!(same(
        &before.status,
        &object(vec![
            ("bridge_ready", JsonValue::Bool(true)),
            ("linked", JsonValue::Null),
            ("zones", shown(false)),
            ("problem", JsonValue::Null),
        ]),
    ));
    let linked = ask(&mut inst, GroupOperation::Link { resource: ZONE.into() });
    assert!(same(
        linked.status.get("linked").unwrap(),
        &object(vec![
            ("ownership", text("external")),
            ("bridge_id", text("BRIDGE-A")),
            ("zone", text(ZONE)),
            ("grouped_light", text(GROUPED)),
            ("name", text("Upstairs")),
            ("valid", JsonValue::Bool(true)),
        ]),
    ));
    let owner = owning();
    let status = group_status(&owner, &request(GroupOperation::Status));
    let JsonValue::Array(zones) = status.get("zones").unwrap() else {
        panic!("zones are a list")
    };
    assert_eq!(zones[0].get("juno_owned").and_then(JsonValue::as_bool), Some(true));
}

#[test]
fn a_link_is_refused_for_each_reason() {
    let link = |inst: &mut Instance| ask(inst, GroupOperation::Link { resource: ZONE.into() });
    let mut inst = bridge();
    inst.scratch.remove(HUE_BRIDGE_ID);
    assert_eq!(problem(&link(&mut inst)), "the Hue bridge identity has not loaded yet");
    let mut inst = bridge();
    inst.scratch.insert(HUE_ZONES, list(vec![]));
    assert_eq!(problem(&link(&mut inst)), "that Hue zone no longer exists");
    let mut inst = bridge();
    inst.scratch
        .insert(HUE_ZONES, list(vec![zone("Upstairs", vec![child("light-a", "light")])]));
    assert_eq!(
        problem(&link(&mut inst)),
        "an existing Hue zone can only be linked when its lights exactly match"
    );
    let mut inst = bridge();
    inst.scratch.insert(
        HUE_ZONES,
        list(vec![object(vec![("id", text(ZONE)), ("children", list(both()))])]),
    );
    assert_eq!(problem(&link(&mut inst)), "that Hue zone cannot control its lights as a group");
    assert!(group_link(&inst, 30).is_none());
}

#[test]
fn a_group_is_refused_for_each_thing_wrong_with_it() {
    let mut wrong = request(GroupOperation::Status);
    wrong.members[1].instance.properties.remove("Light id");
    assert_eq!(group_light_ids(&wrong).unwrap_err(), "device 21 is not a Hue light");
    wrong.members[1].instance.properties.insert("Light id", text(""));
    assert_eq!(group_light_ids(&wrong).unwrap_err(), "device 21 has no Hue light id");
    wrong.members[1].instance.properties.insert("Light id", text("light-a"));
    assert_eq!(
        group_light_ids(&wrong).unwrap_err(),
        "the group contains the same Hue light more than once"
    );
    wrong.members.clear();
    assert_eq!(group_light_ids(&wrong).unwrap_err(), "the group has no Hue lights");

    let mut swapped = request(GroupOperation::Status);
    swapped.members.reverse();
    assert_eq!(group_light_ids(&swapped).unwrap(), vec!["light-a", "light-b"]);
}

#[test]
fn making_a_zone_is_refused_for_each_reason() {
    let mut inst = owning();
    assert_eq!(
        problem(&ask(&mut inst, GroupOperation::Create)),
        "detach the current Hue zone before creating another one"
    );
    let mut inst = bridge();
    assert_eq!(ask(&mut inst, GroupOperation::Create).disposition, GroupDisposition::Queued);
    assert_eq!(
        problem(&ask(&mut inst, GroupOperation::Create)),
        "another Hue zone write is still in progress"
    );
    let mut inst = bridge();
    inst.scratch.remove(HUE_BRIDGE_ID);
    assert_eq!(
        problem(&ask(&mut inst, GroupOperation::Create)),
        "the Hue bridge identity has not loaded yet"
    );
    let mut inst = bridge();
    inst.properties.insert("Bridge address", text(""));
    assert_eq!(
        problem(&ask(&mut inst, GroupOperation::Create)),
        "the Hue bridge connection is not configured"
    );
    let mut bulb = bridge();
    bulb.properties.insert("Light id", text("l1"));
    let response = ask(&mut bulb, GroupOperation::Create);
    assert_eq!(problem(&response), "Hue grouped control must run on the bridge");
    assert!(same(&response.status, &JsonValue::Null));
}

#[test]
fn bringing_a_zone_up_to_date_is_refused_for_each_reason() {
    let sync = |inst: &mut Instance| {
        let response = ask(inst, GroupOperation::Synchronize);
        problem(&response).to_string()
    };
    let mut inst = bridge();
    assert_eq!(sync(&mut inst), "this group has no linked Hue zone");
    ask(&mut inst, GroupOperation::Link { resource: ZONE.into() });
    assert_eq!(
        sync(&mut inst),
        "existing Hue zones stay Hue-owned and cannot be reconfigured by Juno"
    );
    let mut inst = owning();
    inst.scratch.insert(HUE_GROUP_PENDING, object(vec![]));
    assert_eq!(sync(&mut inst), "another Hue zone write is still in progress");
    let mut inst = owning();
    inst.scratch.remove(HUE_BRIDGE_ID);
    assert_eq!(sync(&mut inst), "the Hue bridge identity has not loaded yet");
    let mut inst = owning();
    inst.scratch.insert(HUE_BRIDGE_ID, text("BRIDGE-B"));
    assert_eq!(sync(&mut inst), "the saved zone belongs to a different Hue bridge");
    let mut inst = owning();
    inst.scratch.insert(HUE_ZONES, list(vec![]));
    assert_eq!(sync(&mut inst), "the Juno-created Hue zone no longer exists");
    let mut inst = owning();
    inst.scratch.insert(HUE_ZONES, list(vec![zone("Landing", both())]));
    assert_eq!(
        sync(&mut inst),
        "the Juno ownership marker was removed; refusing to modify this zone"
    );
    let mut inst = owning();
    inst.properties.remove("Bridge address");
    assert_eq!(sync(&mut inst), "the Hue bridge connection is not configured");
    let mut inst = owning();
    let JsonValue::Object(mut link) = group_link(&inst, 30).unwrap() else {
        panic!("a link is an object")
    };
    link.remove("zone");
    set_group_link(&mut inst, 30, JsonValue::Object(link));
    assert_eq!(sync(&mut inst), "the saved Hue zone link is incomplete");
}

#[test]
fn a_command_is_refused_for_each_reason() {
    let go = |inst: &mut Instance| problem(&command(inst, "on", Record::new())).to_string();
    let mut inst = bridge();
    assert_eq!(go(&mut inst), "this Juno group is not linked to a Hue zone");
    let mut inst = owning();
    inst.scratch.remove(HUE_BRIDGE_ID);
    assert_eq!(go(&mut inst), "the Hue bridge identity has not loaded yet");
    let mut inst = owning();
    inst.scratch.insert(HUE_BRIDGE_ID, text("BRIDGE-B"));
    assert_eq!(go(&mut inst), "the saved zone belongs to a different Hue bridge");
    let mut inst = owning();
    inst.scratch.insert(HUE_ZONES, list(vec![]));
    assert_eq!(go(&mut inst), "the linked Hue zone no longer exists");
    let mut inst = owning();
    inst.scratch.insert(
        HUE_ZONES,
        list(vec![object(vec![("id", text(ZONE)), ("children", list(both()))])]),
    );
    assert_eq!(go(&mut inst), "the linked Hue zone has no grouped-light service");
    let mut inst = owning();
    inst.scratch.insert(
        HUE_ZONES,
        list(vec![object(vec![
            ("id", text(ZONE)),
            ("children", list(both())),
            ("services", list(vec![child("other", "grouped_light")])),
        ])]),
    );
    assert_eq!(go(&mut inst), "the linked Hue zone service changed; using individual lights");
    let mut inst = owning();
    inst.properties.remove("Bridge address");
    assert_eq!(go(&mut inst), "the Hue bridge connection is not configured");
    let mut inst = owning();
    assert_eq!(
        problem(&command(&mut inst, "dance", Record::new())),
        "Hue grouped control does not support `dance`"
    );
    let mut inst = owning();
    set_group_link(&mut inst, 30, object(vec![("bridge_id", text("BRIDGE-A"))]));
    assert_eq!(go(&mut inst), "the saved Hue zone link is incomplete");
    assert_eq!(
        validated_grouped_light(&owning(), &request(GroupOperation::Status)).unwrap(),
        GROUPED
    );
}

#[test]
fn a_group_comes_back_light_by_light_and_goes_out_together() {
    let mut inst = owning();
    let mut asked = request(GroupOperation::Command { command: "on".into(), args: Record::new() });
    asked.members[1].instance.scratch.insert("level", num(7));
    let on = HueBulb.on_group(&mut inst, &asked, nowhere());
    assert!(same(&body_of(http(&on)), &power_body(true, None)));
    for (answer, (device, level)) in on.members.iter().zip([(20, 42), (21, 7)]) {
        assert_eq!(answer.device, device);
        assert!(matches!(
            &answer.calls[1],
            HostCall::Notify { name, args, .. }
                if name == "level_changed" && same_record(args, &record(vec![("level", num(level))]))
        ));
    }
    let off = command(&mut inst, "off", Record::new());
    for answer in &off.members {
        assert_eq!(answer.calls.len(), 1);
        let scratch = answer.scratch.as_ref().unwrap();
        assert_eq!(scratch.get("on").and_then(JsonValue::as_bool), Some(false));
        assert_eq!(scratch.get("level").and_then(JsonValue::as_u64), Some(42));
    }
}

#[test]
fn each_command_of_a_group_sends_its_own_body() {
    let mut inst = owning();
    let mut body = |cmd: &str, args: Record| {
        body_of(http(&command(&mut inst, cmd, args)))
    };
    assert!(same(&body("toggle", Record::new()), &power_body(false, None)));
    assert!(same(&body("set_level", record(vec![("level", num(250))])), &level_body(100, None)));
    assert!(same(
        &body("set_level", record(vec![("level", num(0)), ("ramp_ms", num(900))])),
        &power_body(false, Some(900)),
    ));
    assert!(same(&body("ramp_stop", Record::new()), &level_body(42, Some(4000))));
    assert!(same(
        &body("ramp_start", record(vec![("direction", text("up"))])),
        &level_body(100, Some(4000)),
    ));
    assert!(same(&body("ramp_start", Record::new()), &level_body(1, Some(4000))));
    assert!(same(
        &body("set_cct", record(vec![("kelvin", num(2000))])),
        &object(vec![("color_temperature", object(vec![("mirek", num(500))]))]),
    ));
    let mut dark = request(GroupOperation::Command {
        command: "toggle".into(),
        args: Record::new(),
    });
    for m in dark.members.iter_mut() {
        m.instance.scratch.insert("on", JsonValue::Bool(false));
    }
    let on = HueBulb.on_group(&mut owning(), &dark, nowhere());
    assert!(same(&body_of(http(&on)), &power_body(true, None)));
}

#[test]
fn a_color_of_a_group_is_said_by_each_member_on_its_own_binding() {
    let mut inst = owning();
    let args = record(vec![("hue", num(120)), ("sat", num(50))]);
    let mut asked = request(GroupOperation::Command {
        command: "set_color".into(),
        args: args.clone(),
    });
    asked.members[1].proxy = 4;
    let point = Pair {
        first: Number::Float(0.3f64.to_bits()),
        second: Number::Float(0.6f64.to_bits()),
    };
    let response = HueBulb.on_group(&mut inst, &asked, point);
    let body = body_of(http(&response));
    let xy = body.get("color").unwrap().get("xy").unwrap();
    assert_eq!(xy.get("x").unwrap().as_number(), Some(point.first));
    assert_eq!(xy.get("y").unwrap().as_number(), Some(point.second));
    for (answer, binding) in response.members.iter().zip([1, 4]) {
        assert!(matches!(
            &answer.calls[..],
            [HostCall::Notify { proxy, name, args: said }]
                if *proxy == binding && name == "color_changed" && same_record(said, &args)
        ));
        assert_eq!(
            answer.scratch.as_ref().unwrap().get("level").and_then(JsonValue::as_u64),
            Some(42)
        );
    }
}

#[test]
fn a_member_is_on_and_at_its_level_by_what_is_known() {
    let mut m = member(20, "light-a");
    assert!(member_is_on(&m));
    assert_eq!(member_last_level(&m), 42);
    m.instance.scratch.remove("on");
    m.instance.scratch.remove("level");
    assert!(!member_is_on(&m));
    assert_eq!(member_last_level(&m), 100);
    m.state.insert("level", num(0));
    assert!(!member_is_on(&m));
    assert_eq!(member_last_level(&m), 1);
    m.state.insert("level", num(300));
    assert!(member_is_on(&m));
    assert_eq!(member_last_level(&m), 100);
}

#[test]
fn a_zone_is_read_as_the_bridge_shows_it() {
    let shown = object(vec![
        ("children", list(vec![
            child("b", "light"),
            child("x", "device"),
            child("a", "light"),
            child("b", "light"),
        ])),
        ("services", list(vec![child("s", "other"), child("g", "grouped_light")])),
    ]);
    assert_eq!(zone_light_ids(&shown), vec!["a", "b"]);
    assert_eq!(zone_grouped_light(&shown), Some("g"));
    assert_eq!(zone_name(&shown), "Unnamed Hue zone");
    assert_eq!(zone_light_ids(&JsonValue::Null).len(), 0);
    let inst = bridge();
    assert_eq!(zone_name(cached_zone(&inst, ZONE).unwrap()), "Upstairs");
    assert!(cached_zone(&inst, "other").is_none());
}

#[test]
fn links_are_kept_group_by_group() {
    let mut inst = Instance::new(10);
    assert!(group_link(&inst, 1).is_none());
    set_group_link(&mut inst, 1, text("one"));
    set_group_link(&mut inst, 11, text("eleven"));
    assert!(same(&group_link(&inst, 1).unwrap(), &text("one")));
    remove_group_link(&mut inst, 1);
    assert!(group_link(&inst, 1).is_none());
    assert!(same(&group_link(&inst, 11).unwrap(), &text("eleven")));
}

#[test]
fn detaching_forgets_the_zone_and_sends_nothing() {
    let mut inst = owning();
    inst.scratch.insert(HUE_GROUP_PROBLEM, text("something"));
    let response = ask(&mut inst, GroupOperation::Detach);
    assert_eq!(response.disposition, GroupDisposition::Handled);
    assert!(response.calls.is_empty());
    assert!(group_link(&inst, 30).is_none());
    assert!(cached_zone(&inst, ZONE).is_some());
    assert_eq!(noted(&inst), None);
}

#[test]
fn a_zone_name_fits_and_carries_its_mark() {
    assert_eq!(
        owned_zone_name(30, "Landing"),
        ("Landing [Juno 0000001E]".to_string(), "[Juno 0000001E]".to_string())
    );
    let (name, token) = owned_zone_name(0xDEAD_BEEF, "A very long name indeed, é and all");
    assert_eq!(token, "[Juno DEADBEEF]");
    assert_eq!(name, "A very long name [Juno DEADBEEF]");
    assert_eq!(name.chars().count(), 32);
}

#[test]
fn a_rejected_write_is_over() {
    let mut inst = bridge();
    ask(&mut inst, GroupOperation::Create);
    let effects = answer(&mut inst, "POST", 503, JsonValue::Null);
    assert!(effects.is_empty());
    assert_eq!(noted(&inst), Some("Hue rejected the zone write with HTTP 503"));
    assert!(!inst.scratch.contains_key(HUE_GROUP_PENDING));
    assert!(group_link(&inst, 30).is_none());
}

#[test]
fn a_write_that_the_bridge_does_not_identify_is_over() {
    let mut inst = bridge();
    ask(&mut inst, GroupOperation::Create);
    let odd = object(vec![("rid", num(3)), ("id", text("z")), ("type", text("zone"))]);
    answer(&mut inst, "POST", 200, object(vec![("data", list(vec![odd]))]));
    assert_eq!(noted(&inst), Some("Hue did not identify the zone it created"));
    assert!(!inst.scratch.contains_key(HUE_GROUP_PENDING));
}

#[test]
fn a_zone_that_comes_back_wrong_is_not_the_groups_own() {
    let created = |data: JsonValue| {
        let mut inst = bridge();
        ask(&mut inst, GroupOperation::Create);
        let named = object(vec![("id", text(ZONE)), ("type", text("zone"))]);
        answer(&mut inst, "POST", 200, object(vec![("data", list(vec![named]))]));
        answer(&mut inst, "GET", 200, object(vec![("data", list(vec![data]))]));
        assert!(group_link(&inst, 30).is_none());
        assert!(!inst.scratch.contains_key(HUE_GROUP_PENDING));
        noted(&inst).unwrap().to_string()
    };
    assert_eq!(created(JsonValue::Null), "Hue did not return the zone after writing it");
    assert_eq!(
        created(object(vec![("id", text(ZONE)), ("rtype", text("zone"))])),
        "Hue created a zone without grouped-light control"
    );
    assert_eq!(
        created(zone("Landing", both())),
        "Hue returned a zone that did not match Juno's requested name and members"
    );
    assert_eq!(
        created(zone("Landing [Juno 0000001E]", vec![child("light-a", "light")])),
        "Hue returned a zone that did not match Juno's requested name and members"
    );
}

#[test]
fn a_write_that_is_not_named_yet_stays_in_progress() {
    let mut inst = bridge();
    ask(&mut inst, GroupOperation::Create);
    finish_group_pending(&mut inst);
    assert!(inst.scratch.contains_key(HUE_GROUP_PENDING));
    let mut none = bridge();
    finish_group_pending(&mut none);
    assert_eq!(noted(&none), None);
}

#[test]
fn a_scene_that_waits_gets_the_answer_about_zones() {
    let mut inst = bridge();
    ask(&mut inst, GroupOperation::Create);
    let args = record(vec![
        ("method", text("POST")),
        ("url", text("/clip/v2/resource/zone")),
        ("status", num(500)),
    ]);
    let effects = HueBulb.on_event(&mut inst, 0, "http_response", &args, true);
    assert!(matches!(&effects[..], [Effect::SceneZone]));
    assert!(inst.scratch.contains_key(HUE_GROUP_PENDING));
    // A read whose answer holds no list is left to the scenes too.
    let odd = answer(&mut inst, "GET", 200, JsonValue::Null);
    assert!(matches!(&odd[..], [Effect::SceneCollection]));
}
