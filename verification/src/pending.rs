//! Zone writes that the bridge has still to confirm.
use vstd::prelude::*;

use crate::host::{DeviceId, Instance, InstanceView};
use crate::json::{
    at, json_of, json_text, json_texts, jsons, listed, or_null, or_null_of, text_array, u64_in,
    u64_of, Json, JsonValue, Record,
};
use crate::order::{same_texts, texts};
use crate::text::{contains, has_part};
use crate::zone::{
    cached_zone, is_zone, link_token, set_group_link, with_link, zone_grouped_light, zone_known,
    zone_light_ids, zone_lights, zone_name, zone_service, zone_title, HUE_GROUP_PENDING,
    HUE_GROUP_PROBLEM, HUE_ZONES,
};

verus! {

/// The lights that a zone was asked to have.
pub open spec fn expected_lights(pending: Json) -> Seq<Seq<char>> {
    pending.items_at("light_ids"@).filter_map(|id: Json| id.as_str())
}

/// A zone write that came to nothing, and why.
pub open spec fn abandoned(
    scratch: Map<Seq<char>, Json>,
    problem: Seq<char>,
) -> Map<Seq<char>, Json> {
    scratch.insert(HUE_GROUP_PROBLEM@, Json::Str(problem)).remove(HUE_GROUP_PENDING@)
}

/// What is wrong with a zone that the bridge shows after it was written.
pub open spec fn mismatch(pending: Json, zone: Json) -> Option<Seq<char>> {
    if zone_service(zone) is None {
        Some("Hue created a zone without grouped-light control"@)
    } else if zone_lights(zone) != expected_lights(pending) || !has_part(
        zone_title(zone),
        link_token(pending),
    ) {
        Some("Hue returned a zone that did not match Juno's requested name and members"@)
    } else {
        None
    }
}

/// The record of a zone that was made for a group.
pub open spec fn owned_record(pending: Json, id: Seq<char>, zone: Json) -> Json {
    Json::Object(
        Map::empty().insert("ownership"@, Json::Str("juno"@)).insert(
            "bridge_id"@,
            or_null(pending.get("bridge_id"@)),
        ).insert("zone"@, Json::Str(id)).insert(
            "grouped_light"@,
            Json::Str(zone_service(zone)->0),
        ).insert("light_ids"@, text_array(expected_lights(pending))).insert(
            "token"@,
            Json::Str(link_token(pending)),
        ).insert("name"@, Json::Str(zone_title(zone))),
    )
}

/// A number as the id of a device, in the bits kept of it.
pub open spec fn device_of(n: u64) -> DeviceId {
    (n % 0x1_0000_0000) as DeviceId
}

/// What is remembered once the bridge's zones have been read again after a write.
///
/// A write whose zone is not named yet stays pending. Any other is done: the group is linked to
/// the zone if it came back as it was asked for, and the problem is noted if it did not.
pub open spec fn finished(inst: InstanceView) -> Map<Seq<char>, Json> {
    let scratch = inst.scratch;
    match at(scratch, HUE_GROUP_PENDING@) {
        None => scratch,
        Some(pending) => match pending.str_at("zone"@) {
            None => scratch,
            Some(id) => match zone_known(inst, id) {
                None => abandoned(scratch, "Hue did not return the zone after writing it"@),
                Some(zone) => match mismatch(pending, zone) {
                    Some(problem) => abandoned(scratch, problem),
                    None => match u64_in(pending.get("group"@)) {
                        None => scratch.remove(HUE_GROUP_PENDING@),
                        Some(group) => with_link(
                            scratch,
                            device_of(group),
                            owned_record(pending, id, zone),
                        ).remove(HUE_GROUP_PENDING@).remove(HUE_GROUP_PROBLEM@),
                    },
                },
            },
        },
    }
}

/// What is remembered once the bridge's zones have been read.
pub open spec fn zones_cached(inst: InstanceView, data: Seq<Json>) -> Map<Seq<char>, Json> {
    finished(
        inst.with_scratch(
            inst.scratch.insert(HUE_ZONES@, Json::Array(data.filter(|r: Json| is_zone(r)))),
        ),
    )
}

fn texts_listed(items: Option<&Vec<JsonValue>>) -> (r: Vec<String>)
    ensures
        texts(r@) == listed(items).filter_map(|id: Json| id.as_str()),
{
    let mut out: Vec<String> = Vec::new();
    let ghost f = |id: Json| id.as_str();
    let ghost all = listed(items);
    assert(texts(out@) =~= all.take(0).filter_map(f)) by {
        reveal_with_fuel(Seq::filter_map, 1);
    }
    if let Some(items) = items {
        let mut i: usize = 0;
        while i < items.len()
            invariant
                i <= items.len(),
                all == jsons(items@),
                f == (|id: Json| id.as_str()),
                texts(out@) == all.take(i as int).filter_map(f),
            decreases items.len() - i,
        {
            proof {
                all.lemma_filter_map_take_succ(f, i as int);
            }
            let ghost before = out@;
            if let Some(id) = items[i].as_str() {
                out.push(id.to_owned());
                assert(texts(out@) =~= texts(before).push(id@));
            }
            i += 1;
        }
    }
    assert(all.take(all.len() as int) =~= all);
    out
}

pub(crate) fn abandon(scratch: &mut Record, problem: &str)
    ensures
        final(scratch)@ == abandoned(old(scratch)@, problem@),
{
    scratch.insert(HUE_GROUP_PROBLEM, json_text(problem));
    scratch.remove(HUE_GROUP_PENDING);
}

/// Finishes a zone write, if the bridge has named the zone.
pub fn finish_group_pending(inst: &mut Instance)
    ensures
        final(inst)@ == old(inst)@.with_scratch(finished(old(inst)@)),
{
    let pending = match inst.scratch.get(HUE_GROUP_PENDING) {
        Some(pending) => pending.clone(),
        None => return,
    };
    let zone_id = match pending.str_at("zone") {
        Some(id) => id,
        None => return,
    };
    let zone = match cached_zone(inst, zone_id) {
        Some(zone) => zone.clone(),
        None => {
            abandon(&mut inst.scratch, "Hue did not return the zone after writing it");
            return;
        },
    };
    let expected = texts_listed(pending.items_at("light_ids"));
    let service = match zone_grouped_light(&zone) {
        Some(service) => service,
        None => {
            abandon(&mut inst.scratch, "Hue created a zone without grouped-light control");
            return;
        },
    };
    let token = match pending.str_at("token") {
        Some(token) => token,
        None => "",
    };
    if !same_texts(&zone_light_ids(&zone), &expected) || !contains(zone_name(&zone), token) {
        abandon(
            &mut inst.scratch,
            "Hue returned a zone that did not match Juno's requested name and members",
        );
        return;
    }
    let group: u64 = match u64_of(pending.get("group")) {
        Some(group) => group,
        None => {
            inst.scratch.remove(HUE_GROUP_PENDING);
            return;
        },
    };
    let link = Record::new().with("ownership", json_text("juno")).with(
        "bridge_id",
        or_null_of(pending.get("bridge_id")),
    ).with("zone", json_text(zone_id)).with("grouped_light", json_text(service)).with(
        "light_ids",
        json_texts(&expected),
    ).with("token", json_text(token)).with("name", json_text(zone_name(&zone)));
    set_group_link(inst, (group % 0x1_0000_0000) as DeviceId, JsonValue::Object(link));
    inst.scratch.remove(HUE_GROUP_PENDING);
    inst.scratch.remove(HUE_GROUP_PROBLEM);
}

/// Remembers the bridge's zones, and finishes a zone write that waited for them.
pub fn cache_zone_inventory(inst: &mut Instance, data: &Vec<JsonValue>)
    ensures
        final(inst)@ == old(inst)@.with_scratch(zones_cached(old(inst)@, jsons(data@))),
{
    let ghost p = |r: Json| is_zone(r);
    let ghost all = jsons(data@);
    let mut zones: Vec<JsonValue> = Vec::new();
    let mut i: usize = 0;
    assert(jsons(zones@) =~= all.take(0).filter(p)) by {
        reveal(Seq::filter);
    }
    while i < data.len()
        invariant
            i <= data.len(),
            all == jsons(data@),
            p == (|r: Json| is_zone(r)),
            jsons(zones@) == all.take(i as int).filter(p),
        decreases data.len() - i,
    {
        proof {
            reveal(Seq::filter);
            assert(all.take(i + 1).drop_last() =~= all.take(i as int));
        }
        let ghost before = zones@;
        let resource = &data[i];
        if resource.is_at("type", "zone") || resource.is_at("rtype", "zone") {
            let copy = resource.clone();
            zones.push(copy);
            assert(jsons(zones@) =~= jsons(before).push(json_of(copy)));
        }
        i += 1;
    }
    assert(all.take(i as int) =~= all);
    let list = JsonValue::Array(zones);
    assert(list@->Array_0 =~= jsons(zones@));
    inst.scratch.insert(HUE_ZONES, list);
    finish_group_pending(inst);
}

} // verus!
