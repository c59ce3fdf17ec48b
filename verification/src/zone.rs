//! The bridge's zones, as the bridge instance remembers them, and the record of which of them a
//! group is linked to.
use vstd::prelude::*;
use vstd::string::*;

use crate::host::{
    CallView, DeviceId, HostCall, HttpRequest, HttpRequestView, Instance, InstanceView,
};
use crate::json::{
    at, get_in, get_of, items_in, json_in, json_of, json_text, jsons, listed, str_in, str_of, Json,
    JsonValue, Record,
};
use crate::light::{key, key_of};
use crate::order::{sorted, sorted_set, texts};
use crate::text::{clip, clipped, decimal, decimal_text, hexadecimal, hexadecimal_text, text_of};
use crate::views::seen;

verus! {

/// Where the bridge's own id is remembered.
pub const HUE_BRIDGE_ID: &'static str = "hue_bridge_id";

/// Where the zones of the bridge are remembered.
pub const HUE_ZONES: &'static str = "hue_zones";

/// Where the links of groups to zones are remembered.
pub const HUE_GROUP_LINKS: &'static str = "hue_group_links";

/// Where a zone write that is not done yet is remembered.
pub const HUE_GROUP_PENDING: &'static str = "hue_group_pending";

/// Where what went wrong with the last zone write is remembered.
pub const HUE_GROUP_PROBLEM: &'static str = "hue_group_problem";

/// The first item that has a property.
pub open spec fn first(items: Seq<Json>, p: spec_fn(Json) -> bool) -> Option<Json>
    decreases items.len(),
{
    if items.len() == 0 {
        None
    } else if p(items[0]) {
        Some(items[0])
    } else {
        first(items.drop_first(), p)
    }
}

/// The id of a child that is a light.
pub open spec fn light_rid(child: Json) -> Option<Seq<char>> {
    if child.is_at("rtype"@, "light"@) {
        child.str_at("rid"@)
    } else {
        None
    }
}

/// The lights of a zone, in order, each of them once.
pub open spec fn zone_lights(zone: Json) -> Seq<Seq<char>> {
    sorted(zone.items_at("children"@).filter_map(|c: Json| light_rid(c)).to_set())
}

/// The service that commands all the lights of a zone at once.
pub open spec fn zone_service(zone: Json) -> Option<Seq<char>> {
    match first(
        zone.items_at("services"@),
        |s: Json| s.is_at("rtype"@, "grouped_light"@),
    ) {
        Some(service) => service.str_at("rid"@),
        None => None,
    }
}

/// What a zone is called.
pub open spec fn zone_title(zone: Json) -> Seq<char> {
    match str_in(get_in(zone.get("metadata"@), "name"@)) {
        Some(name) => name,
        None => "Unnamed Hue zone"@,
    }
}

/// Whether a resource is a zone.
pub open spec fn is_zone(resource: Json) -> bool {
    resource.is_at("type"@, "zone"@) || resource.is_at("rtype"@, "zone"@)
}

/// The zones that the bridge instance remembers.
pub open spec fn zones_known(inst: InstanceView) -> Seq<Json> {
    items_in(at(inst.scratch, HUE_ZONES@))
}

/// The remembered zone with an id.
pub open spec fn zone_known(inst: InstanceView, id: Seq<char>) -> Option<Json> {
    first(zones_known(inst), |z: Json| z.is_at("id"@, id))
}

/// The bridge's own id, once it has been read.
pub open spec fn bridge_known(inst: InstanceView) -> Option<Seq<char>> {
    str_in(at(inst.scratch, HUE_BRIDGE_ID@))
}

/// The links of groups to zones.
pub open spec fn links(scratch: Map<Seq<char>, Json>) -> Map<Seq<char>, Json> {
    match at(scratch, HUE_GROUP_LINKS@) {
        Some(Json::Object(m)) => m,
        _ => Map::empty(),
    }
}

/// The link of a group to a zone.
pub open spec fn link_of(inst: InstanceView, group: DeviceId) -> Option<Json> {
    at(links(inst.scratch), decimal(group as nat))
}

/// The mark that a link, or a write, says its zone carries.
pub open spec fn link_token(link: Json) -> Seq<char> {
    match link.str_at("token"@) {
        Some(token) => token,
        None => ""@,
    }
}

/// What is remembered once a group is linked.
pub open spec fn with_link(
    scratch: Map<Seq<char>, Json>,
    group: DeviceId,
    link: Json,
) -> Map<Seq<char>, Json> {
    scratch.insert(
        HUE_GROUP_LINKS@,
        Json::Object(links(scratch).insert(decimal(group as nat), link)),
    )
}

/// What is remembered once a group is no longer linked.
pub open spec fn without_link(
    scratch: Map<Seq<char>, Json>,
    group: DeviceId,
) -> Map<Seq<char>, Json> {
    match at(scratch, HUE_GROUP_LINKS@) {
        Some(Json::Object(m)) => scratch.insert(
            HUE_GROUP_LINKS@,
            Json::Object(m.remove(decimal(group as nat))),
        ),
        _ => scratch,
    }
}

/// The mark that a zone made for a group carries in its name.
pub open spec fn zone_token(group: DeviceId) -> Seq<char> {
    "[Juno "@ + hexadecimal(group as nat, 8) + "]"@
}

/// The name of a zone made for a group: at most 32 characters, the mark at the end.
pub open spec fn owned_name(group: DeviceId, name: Seq<char>) -> Seq<char> {
    let token = zone_token(group);
    let room = if token.len() + 1 <= 32 {
        32 - (token.len() + 1)
    } else {
        0
    };
    clipped(name, room as nat) + " "@ + token
}

/// The children of a zone with the given lights.
pub open spec fn children_json(ids: Seq<Seq<char>>) -> Json {
    Json::Array(Seq::new(ids.len(), |i: int| child_json(ids[i])))
}

/// A light as the child of a zone.
pub open spec fn child_json(id: Seq<char>) -> Json {
    Json::Object(Map::empty().insert("rid"@, Json::Str(id)).insert("rtype"@, Json::Str("light"@)))
}

/// A request to the bridge, where its address is set.
pub open spec fn bridge_request(
    inst: InstanceView,
    method: Seq<char>,
    path: Seq<char>,
    body: Option<Json>,
) -> Option<CallView> {
    match inst.text("Bridge address"@) {
        Some(address) if address.len() > 0 => Some(
            CallView::Http(HttpRequestView::with_key(method, path, key_of(inst), body)),
        ),
        _ => None,
    }
}

/// A path, not a URL: the host resolves the address, the port and the scheme. The address is
/// read only to answer whether there is one.
pub fn bridge_http(
    inst: &Instance,
    method: &str,
    path: &str,
    body: Option<JsonValue>,
) -> (r: Option<HostCall>)
    ensures
        seen(r) == bridge_request(inst@, method@, path@, seen(body)),
{
    match inst.text("Bridge address") {
        Some(address) => {
            if address.is_empty() {
                None
            } else {
                Some(HostCall::Http(HttpRequest::with_key(method, path, key(inst), body)))
            }
        },
        None => None,
    }
}

/// The key under which a group's link is kept.
pub fn group_key(group: DeviceId) -> (r: String)
    ensures
        r@ == decimal(group as nat),
{
    decimal_text(group as u64)
}

/// The lights of a zone, in order, each of them once.
pub fn zone_light_ids(zone: &JsonValue) -> (r: Vec<String>)
    ensures
        texts(r@) == zone_lights(zone@),
{
    let mut ids: Vec<String> = Vec::new();
    let ghost f = |c: Json| light_rid(c);
    let children = zone.items_at("children");
    let ghost all = listed(children);
    assert(texts(ids@) =~= all.take(0).filter_map(f)) by {
        reveal_with_fuel(Seq::filter_map, 1);
    }
    if let Some(children) = children {
        let mut i: usize = 0;
        while i < children.len()
            invariant
                i <= children.len(),
                all == jsons(children@),
                f == (|c: Json| light_rid(c)),
                texts(ids@) == all.take(i as int).filter_map(f),
            decreases children.len() - i,
        {
            let child = &children[i];
            proof {
                all.lemma_filter_map_take_succ(f, i as int);
            }
            let ghost before = ids@;
            if child.is_at("rtype", "light") {
                if let Some(rid) = child.str_at("rid") {
                    ids.push(rid.to_owned());
                    assert(texts(ids@) =~= texts(before).push(rid@));
                }
            }
            i += 1;
        }
    }
    assert(all.take(all.len() as int) =~= all);
    sorted_set(ids)
}

/// The service that commands all the lights of a zone at once.
pub fn zone_grouped_light(zone: &JsonValue) -> (r: Option<&str>)
    ensures
        text_of(r) == zone_service(zone@),
{
    let ghost p = |s: Json| s.is_at("rtype"@, "grouped_light"@);
    let services = zone.items_at("services");
    let ghost all = listed(services);
    if let Some(services) = services {
        let mut i: usize = 0;
        assert(all.skip(0) =~= all);
        while i < services.len()
            invariant
                i <= services.len(),
                all == jsons(services@),
                all == zone@.items_at("services"@),
                p == (|s: Json| s.is_at("rtype"@, "grouped_light"@)),
                first(all, p) == first(all.skip(i as int), p),
            decreases services.len() - i,
        {
            let service = &services[i];
            assert(all.skip(i as int)[0] == service@);
            if service.is_at("rtype", "grouped_light") {
                return service.str_at("rid");
            }
            assert(all.skip(i as int).drop_first() =~= all.skip(i + 1));
            i += 1;
        }
    }
    None
}

/// What a zone is called.
pub fn zone_name(zone: &JsonValue) -> (r: &str)
    ensures
        r@ == zone_title(zone@),
{
    match str_of(get_of(zone.get("metadata"), "name")) {
        Some(name) => name,
        None => "Unnamed Hue zone",
    }
}

/// The zones that the bridge instance remembers.
pub fn cached_zones(inst: &Instance) -> (r: Option<&Vec<JsonValue>>)
    ensures
        listed(r) == zones_known(inst@),
{
    match inst.scratch.get(HUE_ZONES) {
        Some(v) => v.as_array(),
        None => None,
    }
}

/// The remembered zone with an id.
pub fn cached_zone<'a>(inst: &'a Instance, id: &str) -> (r: Option<&'a JsonValue>)
    ensures
        json_in(r) == zone_known(inst@, id@),
{
    let ghost p = |z: Json| z.is_at("id"@, id@);
    let zones = cached_zones(inst);
    let ghost all = listed(zones);
    if let Some(zones) = zones {
        let mut i: usize = 0;
        assert(all.skip(0) =~= all);
        while i < zones.len()
            invariant
                i <= zones.len(),
                all == jsons(zones@),
                all == zones_known(inst@),
                p == (|z: Json| z.is_at("id"@, id@)),
                first(all, p) == first(all.skip(i as int), p),
            decreases zones.len() - i,
        {
            let zone = &zones[i];
            assert(all.skip(i as int)[0] == zone@);
            if zone.is_at("id", id) {
                return Some(zone);
            }
            assert(all.skip(i as int).drop_first() =~= all.skip(i + 1));
            i += 1;
        }
    }
    None
}

/// The link of a group to a zone.
pub fn group_link(inst: &Instance, group: DeviceId) -> (r: Option<JsonValue>)
    ensures
        seen(r) == link_of(inst@, group),
{
    match get_of(inst.scratch.get(HUE_GROUP_LINKS), group_key(group).as_str()) {
        Some(link) => Some(link.clone()),
        None => None,
    }
}

/// Links a group to a zone.
pub fn set_group_link(inst: &mut Instance, group: DeviceId, link: JsonValue)
    ensures
        final(inst)@ == old(inst)@.with_scratch(with_link(old(inst)@.scratch, group, link@)),
{
    let mut kept = match inst.scratch.get(HUE_GROUP_LINKS) {
        Some(JsonValue::Object(m)) => m.clone(),
        _ => Record::new(),
    };
    kept.insert(group_key(group).as_str(), link);
    inst.scratch.insert(HUE_GROUP_LINKS, JsonValue::Object(kept));
}

/// Forgets which zone a group is linked to.
pub fn remove_group_link(inst: &mut Instance, group: DeviceId)
    ensures
        final(inst)@ == old(inst)@.with_scratch(without_link(old(inst)@.scratch, group)),
{
    let kept = match inst.scratch.get(HUE_GROUP_LINKS) {
        Some(JsonValue::Object(m)) => Some(m.clone()),
        _ => None,
    };
    if let Some(m) = kept {
        let mut rest = m;
        rest.remove(group_key(group).as_str());
        inst.scratch.insert(HUE_GROUP_LINKS, JsonValue::Object(rest));
    }
}

/// The bridge's own id, once it has been read.
pub fn bridge_id(inst: &Instance) -> (r: Option<&str>)
    ensures
        text_of(r) == bridge_known(inst@),
{
    str_of(inst.scratch.get(HUE_BRIDGE_ID))
}

/// The name of a zone made for a group, and the mark that it carries.
///
/// The mark is visible evidence when somebody inspects the Hue app, but never ownership
/// authority by itself. Only the bridge-scoped local record grants mutation rights.
pub fn owned_zone_name(group: DeviceId, name: &str) -> (r: (String, String))
    ensures
        r.0@ == owned_name(group, name@),
        r.1@ == zone_token(group),
{
    let token = "[Juno ".to_owned().concat(hexadecimal_text(group as u64, 8).as_str()).concat("]");
    let taken: usize = token.as_str().unicode_len();
    let room: usize = if taken < 32 {
        32 - taken - 1
    } else {
        0
    };
    let full = clip(name, room).concat(" ").concat(token.as_str());
    (full, token)
}

/// The children of a zone with the given lights.
pub fn zone_children(light_ids: &Vec<String>) -> (r: JsonValue)
    ensures
        r@ == children_json(texts(light_ids@)),
{
    let mut items: Vec<JsonValue> = Vec::new();
    let mut i: usize = 0;
    while i < light_ids.len()
        invariant
            i <= light_ids.len(),
            items.len() == i,
            forall|k: int| 0 <= k < i ==> json_of(items@[k]) == child_json(light_ids@[k]@),
        decreases light_ids.len() - i,
    {
        let child = Record::new().with("rid", json_text(light_ids[i].as_str())).with(
            "rtype",
            json_text("light"),
        );
        items.push(JsonValue::Object(child));
        i += 1;
    }
    let r = JsonValue::Array(items);
    assert(r@->Array_0 =~= children_json(texts(light_ids@))->Array_0);
    r
}

} // verus!
