//! What the bridge says: answers to requests, and the event stream.
use vstd::prelude::*;

use crate::binary::{percent, percent_of};
use crate::codec::{parse_json, parsed_json};
use crate::host::{notify1, CallView, Effect, EffectView, HostCall, Instance, InstanceView, LocalId};
use crate::json::{
    at, bool_in, bool_of, get_in, get_of, items_in, json_text, json_uint, jsons, listed, number_in,
    number_of, or_null, or_null_of, str_in, str_of, text_arg, text_at, u64_in, u64_of, u64_or,
    u64_or_of, uint, Json, JsonValue, Record,
};
use crate::pending::{abandon, abandoned, cache_zone_inventory, zones_cached};
use crate::role::{role_of, Role};
use crate::text::{
    contains, decimal, decimal_text, eq_ignore_ascii_case, has_part, same, same_but_case, text_of,
};
use crate::views::{group_views, views};
use crate::zone::{bridge_http, bridge_request, first, is_zone, HUE_BRIDGE_ID, HUE_GROUP_PENDING};
use crate::HueBulb;

verus! {

broadcast use group_views;

/// What a new device is called: the name somebody gave it, else its product name, else its id.
pub open spec fn offered_name(resource: Json, id: Seq<char>) -> Seq<char> {
    match str_in(get_in(resource.get("metadata"@), "name"@)) {
        Some(name) => name,
        None => match str_in(get_in(resource.get("product_data"@), "product_name"@)) {
            Some(name) => name,
            None => id,
        },
    }
}

/// What kind of product a new device is, as far as the bridge says.
pub open spec fn offered_kind(resource: Json) -> Seq<char> {
    match str_in(get_in(resource.get("product_data"@), "product_archetype"@)) {
        Some(kind) => kind,
        None => ""@,
    }
}

/// The offer of a resource that the bridge has gained. Only a device is offered: pairing one bulb
/// adds several resources, and the device is the one that stands for the physical thing.
pub open spec fn offers(resource: Json) -> Seq<CallView> {
    match resource.str_at("id"@) {
        Some(id) if resource.is_at("type"@, "device"@) => seq![
            CallView::Notify {
                proxy: 1,
                name: "device_added"@,
                args: Map::empty().insert("id"@, Json::Str(id)).insert(
                    "name"@,
                    Json::Str(offered_name(resource, id)),
                ).insert("kind"@, Json::Str(offered_kind(resource))),
            },
        ],
        _ => Seq::empty(),
    }
}

/// Host calls as effects.
pub open spec fn called(calls: Seq<CallView>) -> Seq<EffectView> {
    Seq::new(calls.len(), |i: int| EffectView::Call(calls[i]))
}

/// Whether a light is on: what the report says, else what is remembered.
pub open spec fn on_reported(scratch: Map<Seq<char>, Json>, light: Json) -> Option<bool> {
    match bool_in(get_in(light.get("on"@), "on"@)) {
        Some(on) => Some(on),
        None => bool_in(at(scratch, "on"@)),
    }
}

/// The brightness that a report names, rounded, from 1 to 100.
pub open spec fn brightness_reported(light: Json) -> Option<u64> {
    match number_in(get_in(light.get("dimming"@), "brightness"@)) {
        Some(n) => Some(percent_of(n) as u64),
        None => None,
    }
}

/// The brightness that a light holds. A report of power alone leaves it as it was.
pub open spec fn level_reported(scratch: Map<Seq<char>, Json>, light: Json) -> Option<u64> {
    match brightness_reported(light) {
        Some(level) => Some(level),
        None => match on_reported(scratch, light) {
            Some(_) => Some(u64_or(at(scratch, "level"@), 100)),
            None => None,
        },
    }
}

/// The white that a report names, in kelvin.
pub open spec fn white_reported(light: Json) -> Option<u64> {
    match u64_in(get_in(light.get("color_temperature"@), "mirek"@)) {
        Some(mirek) if mirek > 0 => Some((1_000_000int / mirek as int) as u64),
        _ => None,
    }
}

/// What is remembered of a light after a report.
pub open spec fn report_scratch(scratch: Map<Seq<char>, Json>, light: Json) -> Map<
    Seq<char>,
    Json,
> {
    let lit = match on_reported(scratch, light) {
        Some(on) => scratch.insert("on"@, Json::Bool(on)),
        None => scratch,
    };
    match level_reported(scratch, light) {
        Some(level) => lit.insert("level"@, uint(level)),
        None => lit,
    }
}

/// What is said after a report of a light: its power, the brightness it holds, its white and its
/// color, each where it is known.
pub open spec fn report_effects(scratch: Map<Seq<char>, Json>, light: Json) -> Seq<EffectView> {
    let power = match on_reported(scratch, light) {
        Some(on) => seq![
            EffectView::Call(notify1(1, "power_changed"@, "on"@, Json::Bool(on))),
        ],
        None => Seq::empty(),
    };
    let level = match level_reported(scratch, light) {
        Some(level) => seq![
            EffectView::Call(notify1(1, "level_changed"@, "level"@, uint(level))),
        ],
        None => Seq::empty(),
    };
    let white = match white_reported(light) {
        Some(kelvin) => seq![
            EffectView::Call(notify1(1, "cct_changed"@, "kelvin"@, uint(kelvin))),
        ],
        None => Seq::empty(),
    };
    let xy = get_in(light.get("color"@), "xy"@);
    let color = match (number_in(get_in(xy, "x"@)), number_in(get_in(xy, "y"@))) {
        (Some(x), Some(y)) => seq![EffectView::Color { x, y }],
        _ => Seq::empty(),
    };
    seq![EffectView::CacheEffects(light)] + power + level + white + color
}

/// What one resource of a frame means to one device: what it then remembers, and what it does.
pub open spec fn heard(inst: InstanceView, kind: Seq<char>, resource: Json) -> (
    InstanceView,
    Seq<EffectView>,
) {
    let role = role_of(inst);
    if kind == "add"@ {
        // Nothing in the project can own a resource that has just been made.
        (
            inst,
            if role == Role::Bridge {
                called(offers(resource))
            } else {
                Seq::empty()
            },
        )
    } else if kind == "delete"@ {
        // Only the device that answers to the deleted id has anything to say.
        (
            inst,
            match resource.str_at("id"@) {
                Some(rid) if role.spec_owns(inst, rid) => seq![
                    EffectView::Call(CallView::Gone { reason: "unpaired at the Hue bridge"@ }),
                ],
                _ => Seq::empty(),
            },
        )
    } else {
        match role {
            Role::Bulb => if resource.str_at("id"@) == inst.text("Light id"@) {
                (
                    inst.with_scratch(report_scratch(inst.scratch, resource)),
                    report_effects(inst.scratch, resource),
                )
            } else {
                (inst, Seq::empty())
            },
            Role::Motion => (inst, seq![EffectView::Sensor(resource)]),
            Role::Control => (inst, seq![EffectView::Control(resource)]),
            Role::Bridge => (inst, Seq::empty()),
        }
    }
}

/// What the resources of one update mean to one device, one after the other.
pub open spec fn heard_all(inst: InstanceView, kind: Seq<char>, data: Seq<Json>) -> (
    InstanceView,
    Seq<EffectView>,
)
    decreases data.len(),
{
    if data.len() == 0 {
        (inst, Seq::empty())
    } else {
        let (before, done) = heard_all(inst, kind, data.drop_last());
        let (after, more) = heard(before, kind, data.last());
        (after, done + more)
    }
}

/// What an update says has happened; a change where it does not say.
pub open spec fn update_kind(update: Json) -> Seq<char> {
    match update.str_at("type"@) {
        Some(kind) => kind,
        None => "update"@,
    }
}

/// What the updates of a frame mean to one device, one after the other.
pub open spec fn heard_updates(inst: InstanceView, updates: Seq<Json>) -> (
    InstanceView,
    Seq<EffectView>,
)
    decreases updates.len(),
{
    if updates.len() == 0 {
        (inst, Seq::empty())
    } else {
        let (before, done) = heard_updates(inst, updates.drop_last());
        let update = updates.last();
        let (after, more) = heard_all(before, update_kind(update), update.items_at("data"@));
        (after, done + more)
    }
}

/// Whether a resource is of a type.
pub open spec fn is_of(resource: Json, rtype: Seq<char>) -> bool {
    resource.is_at("type"@, rtype) || resource.is_at("rtype"@, rtype)
}

/// Whether an update names a resource of a type.
pub open spec fn names_type(update: Json, rtype: Seq<char>) -> bool {
    exists|i: int|
        0 <= i < update.items_at("data"@).len() && is_of(
            #[trigger] update.items_at("data"@)[i],
            rtype,
        )
}

/// Whether a frame names a resource of a type.
pub open spec fn touches(updates: Seq<Json>, rtype: Seq<char>) -> bool {
    exists|i: int| 0 <= i < updates.len() && names_type(#[trigger] updates[i], rtype)
}

/// A read of one collection of the bridge, where its address is set.
pub open spec fn reading(inst: InstanceView, rtype: Seq<char>) -> Seq<EffectView> {
    match bridge_request(inst, "GET"@, "/clip/v2/resource/"@ + rtype, None) {
        Some(call) => seq![EffectView::Call(call)],
        None => Seq::empty(),
    }
}

/// A read of a collection that a frame touched. An update may be partial, so the whole is read.
pub open spec fn reread(inst: InstanceView, updates: Seq<Json>, rtype: Seq<char>) -> Seq<
    EffectView,
> {
    if role_of(inst) == Role::Bridge && touches(updates, rtype) {
        reading(inst, rtype)
    } else {
        Seq::empty()
    }
}

/// What a frame of the event stream means to one device.
pub open spec fn frame_outcome(inst: InstanceView, frame: Json) -> (
    InstanceView,
    Seq<EffectView>,
) {
    let updates = items_in(Some(frame));
    let (after, done) = heard_updates(inst, updates);
    (
        after,
        done + reread(after, updates, "zone"@) + reread(after, updates, "scene"@) + reread(
            after,
            updates,
            "room"@,
        ),
    )
}

/// What a piece of the event stream means to one device. Text that is no document, such as a
/// keep-alive, means nothing.
pub open spec fn stream_outcome(inst: InstanceView, args: Map<Seq<char>, Json>) -> (
    InstanceView,
    Seq<EffectView>,
) {
    match str_in(at(args, "data"@)) {
        None => (inst, Seq::empty()),
        Some(text) => match parsed_json(text) {
            None => (inst, Seq::empty()),
            Some(frame) => frame_outcome(inst, frame),
        },
    }
}

/// The zone that an answer says was made.
pub open spec fn created_zone(body: Json) -> Option<Seq<char>> {
    match first(body.items_at("data"@), |r: Json| is_zone(r)) {
        Some(resource) => match resource.get("rid"@) {
            Some(rid) => rid.as_str(),
            None => resource.str_at("id"@),
        },
        None => None,
    }
}

/// What is remembered once the bridge has answered a request to make a zone: which zone to look
/// for, or that the bridge did not say.
pub open spec fn zone_named(scratch: Map<Seq<char>, Json>, body: Json) -> Option<
    Map<Seq<char>, Json>,
> {
    match (created_zone(body), at(scratch, HUE_GROUP_PENDING@)) {
        (Some(zone), Some(Json::Object(pending))) => Some(
            scratch.insert(
                HUE_GROUP_PENDING@,
                Json::Object(pending.insert("zone"@, Json::Str(zone))),
            ),
        ),
        _ => None,
    }
}

/// What the bridge's answer about its zones means, or nothing where it is no answer to a write or
/// a read of them.
pub open spec fn zone_answer(
    inst: InstanceView,
    method: Seq<char>,
    status: u64,
    body: Json,
    scene_waits: bool,
) -> Option<(InstanceView, Seq<EffectView>)> {
    if scene_waits {
        Some((inst, seq![EffectView::SceneZone]))
    } else if status >= 400 {
        let problem = "Hue rejected the zone write with HTTP "@ + decimal(status as nat);
        Some((inst.with_scratch(abandoned(inst.scratch, problem)), Seq::empty()))
    } else if same_but_case(method, "POST"@) {
        match zone_named(inst.scratch, body) {
            Some(scratch) => {
                let after = inst.with_scratch(scratch);
                Some((after, reading(after, "zone"@)))
            },
            None => Some(
                (
                    inst.with_scratch(
                        abandoned(inst.scratch, "Hue did not identify the zone it created"@),
                    ),
                    Seq::empty(),
                ),
            ),
        }
    } else if same_but_case(method, "PUT"@) {
        Some((inst, reading(inst, "zone"@)))
    } else {
        match body.get("data"@) {
            Some(Json::Array(data)) if same_but_case(method, "GET"@) => Some(
                (inst.with_scratch(zones_cached(inst, data)), Seq::empty()),
            ),
            _ => None,
        }
    }
}

/// What the bridge remembers of its own id after an answer.
pub open spec fn identified(inst: InstanceView, body: Json) -> InstanceView {
    match body.str_at("bridgeid"@) {
        Some(id) => inst.with_scratch(inst.scratch.insert(HUE_BRIDGE_ID@, Json::Str(id))),
        None => inst,
    }
}

/// What an answer means to the bridge. Whatever is not about its zones may be about its scenes;
/// it is never about the bridge itself.
pub open spec fn bridge_answer(
    inst: InstanceView,
    args: Map<Seq<char>, Json>,
    scene_waits: bool,
) -> (InstanceView, Seq<EffectView>) {
    let body = or_null(at(args, "body"@));
    let known = identified(inst, body);
    let status = u64_or(at(args, "status"@), 200);
    if has_part(text_at(args, "url"@), "/clip/v2/resource/zone"@) {
        match zone_answer(known, text_at(args, "method"@), status, body, scene_waits) {
            Some(outcome) => outcome,
            None => (known, seq![EffectView::SceneCollection]),
        }
    } else {
        (known, seq![EffectView::SceneCollection])
    }
}

/// What an event means to one device. An answer is a snapshot of what is already there, so
/// nothing in it is ever taken for an addition.
pub open spec fn event_outcome(
    inst: InstanceView,
    note: Seq<char>,
    args: Map<Seq<char>, Json>,
    scene_waits: bool,
) -> (InstanceView, Seq<EffectView>) {
    if note == "rx"@ {
        stream_outcome(inst, args)
    } else if note != "http_response"@ {
        (inst, Seq::empty())
    } else if role_of(inst) == Role::Bridge {
        bridge_answer(inst, args, scene_waits)
    } else {
        heard_all(inst, "update"@, items_in(get_in(at(args, "body"@), "data"@)))
    }
}

fn as_effects(calls: Vec<HostCall>) -> (r: Vec<Effect>)
    ensures
        views(r@) == called(views(calls@)),
{
    let ghost all = calls@;
    let mut rest = calls;
    let mut out: Vec<Effect> = Vec::new();
    let ghost mut i: int = 0;
    while rest.len() > 0
        invariant
            0 <= i <= all.len(),
            rest@ == all.skip(i),
            views(out@) == called(views(all)).take(i),
        decreases rest.len(),
    {
        out.push(Effect::Call(rest.remove(0)));
        proof {
            assert(all.skip(i).remove(0) =~= all.skip(i + 1));
            assert(called(views(all)).take(i + 1) =~= called(views(all)).take(i).push(
                called(views(all))[i],
            ));
            i = i + 1;
        }
    }
    assert(called(views(all)).take(i) =~= called(views(all)));
    out
}

fn read_collection(inst: &Instance, rtype: &str) -> (r: Vec<Effect>)
    ensures
        views(r@) == reading(inst@, rtype@),
{
    let mut out: Vec<Effect> = Vec::new();
    let path = "/clip/v2/resource/".to_owned().concat(rtype);
    if let Some(call) = bridge_http(inst, "GET", path.as_str(), None) {
        out.push(Effect::Call(call));
    }
    out
}

fn of_type(resource: &JsonValue, rtype: &str) -> (r: bool)
    ensures
        r == is_of(resource@, rtype@),
{
    resource.is_at("type", rtype) || resource.is_at("rtype", rtype)
}

fn update_names(update: &JsonValue, rtype: &str) -> (r: bool)
    ensures
        r == names_type(update@, rtype@),
{
    let data = update.items_at("data");
    let ghost all = listed(data);
    if let Some(data) = data {
        let mut i: usize = 0;
        while i < data.len()
            invariant
                i <= data.len(),
                all == jsons(data@),
                all == update@.items_at("data"@),
                forall|k: int| 0 <= k < i ==> !is_of(#[trigger] all[k], rtype@),
            decreases data.len() - i,
        {
            if of_type(&data[i], rtype) {
                assert(is_of(all[i as int], rtype@));
                return true;
            }
            i += 1;
        }
    }
    false
}

fn frame_touches(frame: &JsonValue, rtype: &str) -> (r: bool)
    ensures
        r == touches(items_in(Some(frame@)), rtype@),
{
    let updates = frame.as_array();
    let ghost all = listed(updates);
    if let Some(updates) = updates {
        let mut i: usize = 0;
        while i < updates.len()
            invariant
                i <= updates.len(),
                all == jsons(updates@),
                all == items_in(Some(frame@)),
                forall|k: int| 0 <= k < i ==> !names_type(#[trigger] all[k], rtype@),
            decreases updates.len() - i,
        {
            if update_names(&updates[i], rtype) {
                assert(names_type(all[i as int], rtype@));
                return true;
            }
            i += 1;
        }
    }
    false
}

fn read_again(inst: &Instance, frame: &JsonValue, rtype: &str) -> (r: Vec<Effect>)
    ensures
        views(r@) == reread(inst@, items_in(Some(frame@)), rtype@),
{
    if Role::of(inst) == Role::Bridge && frame_touches(frame, rtype) {
        read_collection(inst, rtype)
    } else {
        Vec::new()
    }
}

fn mine_all(inst: &mut Instance, kind: &str, data: Option<&Vec<JsonValue>>) -> (r: Vec<Effect>)
    ensures
        (final(inst)@, views(r@)) == heard_all(old(inst)@, kind@, listed(data)),
{
    let mut out: Vec<Effect> = Vec::new();
    let ghost all = listed(data);
    let ghost start = inst@;
    assert(all.take(0).len() == 0);
    if let Some(data) = data {
        let mut i: usize = 0;
        while i < data.len()
            invariant
                i <= data.len(),
                all == jsons(data@),
                (inst@, views(out@)) == heard_all(start, kind@, all.take(i as int)),
            decreases data.len() - i,
        {
            let mut more = HueBulb::mine(inst, kind, &data[i]);
            out.append(&mut more);
            proof {
                assert(all.take(i + 1).drop_last() =~= all.take(i as int));
                assert(all.take(i + 1).last() == all[i as int]);
            }
            i += 1;
        }
    }
    assert(all.take(all.len() as int) =~= all);
    out
}

fn zone_created(body: &JsonValue) -> (r: Option<&str>)
    ensures
        text_of(r) == created_zone(body@),
{
    let ghost p = |r: Json| is_zone(r);
    let data = body.items_at("data");
    let ghost all = listed(data);
    if let Some(data) = data {
        let mut i: usize = 0;
        assert(all.skip(0) =~= all);
        while i < data.len()
            invariant
                i <= data.len(),
                all == jsons(data@),
                all == body@.items_at("data"@),
                p == (|r: Json| is_zone(r)),
                first(all, p) == first(all.skip(i as int), p),
            decreases data.len() - i,
        {
            let resource = &data[i];
            assert(all.skip(i as int)[0] == resource@);
            if of_type(resource, "zone") {
                return match resource.get("rid") {
                    Some(rid) => rid.as_str(),
                    None => resource.str_at("id"),
                };
            }
            assert(all.skip(i as int).drop_first() =~= all.skip(i + 1));
            i += 1;
        }
    }
    None
}

fn name_zone(inst: &mut Instance, body: &JsonValue) -> (r: bool)
    ensures
        match zone_named(old(inst)@.scratch, body@) {
            Some(scratch) => r && final(inst)@ == old(inst)@.with_scratch(scratch),
            None => !r && final(inst)@ == old(inst)@,
        },
{
    let zone = match zone_created(body) {
        Some(zone) => zone,
        None => return false,
    };
    let mut pending = match inst.scratch.get(HUE_GROUP_PENDING) {
        Some(JsonValue::Object(pending)) => pending.clone(),
        _ => return false,
    };
    pending.insert("zone", json_text(zone));
    inst.scratch.insert(HUE_GROUP_PENDING, JsonValue::Object(pending));
    true
}

/// What an outcome stands for.
pub open spec fn effects_seen(inst: Instance, r: Option<Vec<Effect>>) -> Option<
    (InstanceView, Seq<EffectView>),
> {
    match r {
        Some(effects) => Some((inst@, views(effects@))),
        None => None,
    }
}

fn on_zone_answer(
    inst: &mut Instance,
    method: &str,
    status: u64,
    body: &JsonValue,
    scene_waits: bool,
) -> (r: Option<Vec<Effect>>)
    ensures
        effects_seen(*final(inst), r) == zone_answer(
            old(inst)@,
            method@,
            status,
            body@,
            scene_waits,
        ),
        r is None ==> final(inst)@ == old(inst)@,
{
    if scene_waits {
        let mut out: Vec<Effect> = Vec::new();
        out.push(Effect::SceneZone);
        return Some(out);
    }
    if status >= 400 {
        let problem = "Hue rejected the zone write with HTTP ".to_owned().concat(
            decimal_text(status).as_str(),
        );
        abandon(&mut inst.scratch, problem.as_str());
        return Some(Vec::new());
    }
    if eq_ignore_ascii_case(method, "POST") {
        if name_zone(inst, body) {
            return Some(read_collection(inst, "zone"));
        }
        abandon(&mut inst.scratch, "Hue did not identify the zone it created");
        return Some(Vec::new());
    }
    if eq_ignore_ascii_case(method, "PUT") {
        return Some(read_collection(inst, "zone"));
    }
    if eq_ignore_ascii_case(method, "GET") {
        if let Some(data) = body.items_at("data") {
            cache_zone_inventory(inst, data);
            return Some(Vec::new());
        }
    }
    None
}

fn on_bridge_answer(inst: &mut Instance, args: &Record, scene_waits: bool) -> (r: Vec<Effect>)
    ensures
        (final(inst)@, views(r@)) == bridge_answer(old(inst)@, args@, scene_waits),
{
    let body = or_null_of(args.get("body"));
    if let Some(id) = body.str_at("bridgeid") {
        inst.scratch.insert(HUE_BRIDGE_ID, json_text(id));
    }
    let status: u64 = u64_or_of(args.get("status"), 200);
    if contains(text_arg(args, "url"), "/clip/v2/resource/zone") {
        if let Some(effects) = on_zone_answer(
            inst,
            text_arg(args, "method"),
            status,
            &body,
            scene_waits,
        ) {
            return effects;
        }
    }
    let mut out: Vec<Effect> = Vec::new();
    out.push(Effect::SceneCollection);
    out
}

impl HueBulb {
    /// The offer of a resource that the bridge has just gained, told to the host so that it can
    /// ask whether the house wants it.
    pub fn offer(resource: &JsonValue) -> (r: Vec<HostCall>)
        ensures
            views(r@) == offers(resource@),
    {
        let mut out: Vec<HostCall> = Vec::new();
        if !resource.is_at("type", "device") {
            return out;
        }
        let id = match resource.str_at("id") {
            Some(id) => id,
            None => return out,
        };
        let product = resource.get("product_data");
        let name = match str_of(get_of(resource.get("metadata"), "name")) {
            Some(name) => name,
            None => match str_of(get_of(product, "product_name")) {
                Some(name) => name,
                None => id,
            },
        };
        let kind = match str_of(get_of(product, "product_archetype")) {
            Some(kind) => kind,
            None => "",
        };
        let args = Record::new().with("id", json_text(id)).with("name", json_text(name)).with(
            "kind",
            json_text(kind),
        );
        out.push(HostCall::notify(1, "device_added", args));
        out
    }

    /// Turns a light resource, from a read or from the stream, into what changed.
    ///
    /// An event carries only the fields that moved, so a missing field means unchanged and the
    /// remembered value fills it in.
    pub fn report(inst: &mut Instance, light: &JsonValue) -> (r: Vec<Effect>)
        ensures
            final(inst)@ == old(inst)@.with_scratch(report_scratch(old(inst)@.scratch, light@)),
            views(r@) == report_effects(old(inst)@.scratch, light@),
    {
        let mut out: Vec<Effect> = Vec::new();
        out.push(Effect::CacheEffects(light.clone()));
        let known_level: u64 = u64_or_of(inst.scratch.get("level"), 100);
        let on = match bool_of(get_of(light.get("on"), "on")) {
            Some(on) => Some(on),
            None => bool_of(inst.scratch.get("on")),
        };
        let brightness: Option<u64> = match number_of(get_of(light.get("dimming"), "brightness")) {
            Some(n) => Some(percent(n)),
            None => None,
        };
        if let Some(on) = on {
            inst.scratch.insert("on", JsonValue::Bool(on));
            out.push(
                Effect::Call(HostCall::notify1(1, "power_changed", "on", JsonValue::Bool(on))),
            );
        }
        let level: Option<u64> = match brightness {
            Some(level) => Some(level),
            None => match on {
                Some(_) => Some(known_level),
                None => None,
            },
        };
        if let Some(level) = level {
            inst.scratch.insert("level", json_uint(level));
            out.push(Effect::Call(HostCall::notify1(1, "level_changed", "level", json_uint(level))));
        }
        if let Some(mirek) = u64_of(get_of(light.get("color_temperature"), "mirek")) {
            if mirek > 0 {
                let kelvin: u64 = 1_000_000 / mirek;
                out.push(
                    Effect::Call(HostCall::notify1(1, "cct_changed", "kelvin", json_uint(kelvin))),
                );
            }
        }
        let xy = get_of(light.get("color"), "xy");
        if let Some(x) = number_of(get_of(xy, "x")) {
            if let Some(y) = number_of(get_of(xy, "y")) {
                out.push(Effect::Color { x, y });
            }
        }
        assert(views(out@) =~= report_effects(old(inst)@.scratch, light@));
        out
    }

    /// One resource, handed to whichever part of the driver knows what it means.
    ///
    /// Nothing for everything that is not about this device, which is most of every frame: the
    /// bridge publishes the whole house on one connection.
    pub fn mine(inst: &mut Instance, kind: &str, resource: &JsonValue) -> (r: Vec<Effect>)
        ensures
            (final(inst)@, views(r@)) == heard(old(inst)@, kind@, resource@),
    {
        let role = Role::of(inst);
        let mut out: Vec<Effect> = Vec::new();
        if same(kind, "add") {
            if role == Role::Bridge {
                return as_effects(HueBulb::offer(resource));
            }
            return out;
        }
        if same(kind, "delete") {
            if let Some(rid) = resource.str_at("id") {
                if role.owns(inst, rid) {
                    out.push(Effect::Call(HostCall::gone("unpaired at the Hue bridge")));
                }
            }
            return out;
        }
        match role {
            Role::Bulb => {
                let named: bool = match (inst.text("Light id"), resource.str_at("id")) {
                    (Some(own), Some(id)) => same(own, id),
                    _ => false,
                };
                if named {
                    return HueBulb::report(inst, resource);
                }
            },
            Role::Motion => {
                out.push(Effect::Sensor(resource.clone()));
            },
            Role::Control => {
                out.push(Effect::Control(resource.clone()));
            },
            Role::Bridge => {},
        }
        out
    }

    /// One frame of the event stream, as it concerns this device.
    pub fn on_frame(&self, inst: &mut Instance, frame: &JsonValue) -> (r: Vec<Effect>)
        ensures
            (final(inst)@, views(r@)) == frame_outcome(old(inst)@, frame@),
    {
        let mut out: Vec<Effect> = Vec::new();
        let updates = frame.as_array();
        let ghost all = listed(updates);
        let ghost start = inst@;
        assert(all.take(0).len() == 0);
        if let Some(updates) = updates {
            let mut i: usize = 0;
            while i < updates.len()
                invariant
                    i <= updates.len(),
                    all == jsons(updates@),
                    (inst@, views(out@)) == heard_updates(start, all.take(i as int)),
                decreases updates.len() - i,
            {
                let update = &updates[i];
                let kind = match update.str_at("type") {
                    Some(kind) => kind,
                    None => "update",
                };
                let mut more = mine_all(inst, kind, update.items_at("data"));
                out.append(&mut more);
                proof {
                    assert(all.take(i + 1).drop_last() =~= all.take(i as int));
                    assert(all.take(i + 1).last() == all[i as int]);
                }
                i += 1;
            }
        }
        assert(all.take(all.len() as int) =~= all);
        let mut zones = read_again(inst, frame, "zone");
        out.append(&mut zones);
        let mut scenes = read_again(inst, frame, "scene");
        out.append(&mut scenes);
        let mut rooms = read_again(inst, frame, "room");
        out.append(&mut rooms);
        out
    }

    /// A piece of the bridge's event stream, as it concerns this device.
    ///
    /// A frame is the whole house, and every device behind the bridge is handed the same text.
    /// Keeping only what names this device is what makes one connection serve all of them.
    pub fn on_stream(&self, inst: &mut Instance, args: &Record) -> (r: Vec<Effect>)
        ensures
            (final(inst)@, views(r@)) == stream_outcome(old(inst)@, args@),
    {
        let text = match str_of(args.get("data")) {
            Some(text) => text,
            None => return Vec::new(),
        };
        match parse_json(text) {
            Some(frame) => self.on_frame(inst, &frame),
            None => Vec::new(),
        }
    }

    /// The bridge answering a request, or speaking on its stream. `scene_waits` says whether a
    /// scene waits for the answer to a zone write of its own.
    pub fn on_event(
        &self,
        inst: &mut Instance,
        _control: LocalId,
        note: &str,
        args: &Record,
        scene_waits: bool,
    ) -> (r: Vec<Effect>)
        ensures
            (final(inst)@, views(r@)) == event_outcome(old(inst)@, note@, args@, scene_waits),
    {
        if same(note, "rx") {
            return self.on_stream(inst, args);
        }
        if !same(note, "http_response") {
            return Vec::new();
        }
        if Role::of(inst) == Role::Bridge {
            return on_bridge_answer(inst, args, scene_waits);
        }
        let data = match get_of(args.get("body"), "data") {
            Some(v) => v.as_array(),
            None => None,
        };
        mine_all(inst, "update", data)
    }
}

} // verus!
