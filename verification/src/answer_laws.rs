//! What the bridge makes of the answers to its requests.
use vstd::prelude::*;

use crate::event::{created_zone, event_outcome};
use crate::group::{group_lights, member_ids, GroupDisposition, GroupRequestView};
use crate::group_command::usable_service;
use crate::group_request::group_outcome;
use crate::host::{DeviceId, EffectView, InstanceView};
use crate::json::{or_null, text_at, Json};
use crate::law_terms::{
    count_in, held, inner, is_reachable, key_set, list_in, member, names_in, reads_from, words_in,
};
use crate::light::Pair;
use crate::link_laws::{keeps_all_but, keeps_other_links};
use crate::order::law_sorted_holds_the_same;
use crate::pending::{device_of, expected_lights, finished};
use crate::role::{role_of, Role};
use crate::text::{decimal, has_part, law_decimal_is_unique, lower, same_but_case, stands_at};
use crate::zone::{
    is_zone, light_rid, link_of, links, zone_known, zone_lights, zone_service, zone_title,
    zones_known, HUE_BRIDGE_ID, HUE_GROUP_LINKS, HUE_GROUP_PENDING, HUE_GROUP_PROBLEM, HUE_ZONES,
};
use crate::zone_laws::{
    law_a_zone_is_brought_to_the_lights_of_the_group, lemma_first, lists_children, lists_texts,
    only_changes,
};

verus! {

/// The words that laws tell apart are different.
proof fn lemma_words()
    ensures
        "rx"@.len() == 2 && "rx"@[0] == 'r',
        "http_response"@.len() == 13 && "http_response"@[0] == 'h' && "http_response"@[1] == 't',
        "body"@.len() == 4 && "body"@[0] == 'b',
        "data"@.len() == 4 && "data"@[0] == 'd',
        "status"@.len() == 6 && "status"@[0] == 's',
        "url"@.len() == 3 && "url"@[0] == 'u',
        "method"@.len() == 6 && "method"@[0] == 'm',
        "bridgeid"@.len() == 8 && "bridgeid"@[0] == 'b',
        "zone"@.len() == 4 && "zone"@[0] == 'z',
        "type"@.len() == 4 && "type"@[0] == 't',
        "rtype"@.len() == 5 && "rtype"@[0] == 'r',
        "rid"@.len() == 3 && "rid"@[0] == 'r',
        "id"@.len() == 2 && "id"@[0] == 'i',
        "ownership"@.len() == 9 && "ownership"@[0] == 'o' && "ownership"@[1] == 'w',
        "juno"@.len() == 4 && "juno"@[0] == 'j',
        "bridge_id"@.len() == 9 && "bridge_id"@[0] == 'b',
        "light_ids"@.len() == 9 && "light_ids"@[0] == 'l',
        "token"@.len() == 5 && "token"@[0] == 't',
        "name"@.len() == 4 && "name"@[0] == 'n',
        "grouped_light"@.len() == 13 && "grouped_light"@[0] == 'g',
        "group"@.len() == 5 && "group"@[0] == 'g',
        "operation"@.len() == 9 && "operation"@[0] == 'o' && "operation"@[1] == 'p',
        "services"@.len() == 8 && "services"@[0] == 's',
        "children"@.len() == 8 && "children"@[0] == 'c',
        "metadata"@.len() == 8 && "metadata"@[0] == 'm',
        "hue_bridge_id"@.len() == 13 && "hue_bridge_id"@[0] == 'h' && "hue_bridge_id"@[1] == 'u',
        "hue_zones"@.len() == 9 && "hue_zones"@[0] == 'h',
        "hue_group_links"@.len() == 15,
        "hue_group_pending"@.len() == 17 && "hue_group_pending"@[11] == 'e',
        "hue_group_problem"@.len() == 17 && "hue_group_problem"@[11] == 'r',
{
    reveal_strlit("rx");
    reveal_strlit("http_response");
    reveal_strlit("body");
    reveal_strlit("data");
    reveal_strlit("status");
    reveal_strlit("url");
    reveal_strlit("method");
    reveal_strlit("bridgeid");
    reveal_strlit("zone");
    reveal_strlit("type");
    reveal_strlit("rtype");
    reveal_strlit("rid");
    reveal_strlit("id");
    reveal_strlit("ownership");
    reveal_strlit("juno");
    reveal_strlit("bridge_id");
    reveal_strlit("light_ids");
    reveal_strlit("token");
    reveal_strlit("name");
    reveal_strlit("grouped_light");
    reveal_strlit("group");
    reveal_strlit("operation");
    reveal_strlit("services");
    reveal_strlit("children");
    reveal_strlit("metadata");
    reveal_strlit("hue_bridge_id");
    reveal_strlit("hue_zones");
    reveal_strlit("hue_group_links");
    reveal_strlit("hue_group_pending");
    reveal_strlit("hue_group_problem");
}

/// Whether the only effect is a read of one collection, where the address of the bridge is set;
/// none where it is not.
pub open spec fn reads_again(
    inst: InstanceView,
    effects: Seq<EffectView>,
    rtype: Seq<char>,
) -> bool {
    if is_reachable(inst) {
        &&& effects.len() == 1
        &&& effects[0] matches EffectView::Call(call)
        &&& reads_from(call, "/clip/v2/resource/"@ + rtype, key_set(inst.properties))
    } else {
        effects.len() == 0
    }
}

/// What the bridge is once it has learned its id, where an answer names it, and nothing else.
pub open spec fn is_identified(
    before: InstanceView,
    inst: InstanceView,
    args: Map<Seq<char>, Json>,
) -> bool {
    &&& inst.device == before.device
    &&& inst.properties == before.properties
    &&& match words_in(inner(held(args, "body"@), "bridgeid"@)) {
        Some(id) => inst.scratch == before.scratch.insert(HUE_BRIDGE_ID@, Json::Str(id)),
        None => inst.scratch == before.scratch,
    }
}

/// Whether an answer is about the zones of the bridge.
pub open spec fn is_about_zones(args: Map<Seq<char>, Json>) -> bool {
    words_in(held(args, "url"@)) matches Some(url) && has_part(url, "/clip/v2/resource/zone"@)
}

/// The method of the request that an answer belongs to.
pub open spec fn answered_method(args: Map<Seq<char>, Json>) -> Seq<char> {
    match words_in(held(args, "method"@)) {
        Some(method) => method,
        None => ""@,
    }
}

/// The status of an answer: that it went well, where it does not say.
pub open spec fn answered_status(args: Map<Seq<char>, Json>) -> int {
    match count_in(held(args, "status"@)) {
        Some(status) => status as int,
        None => 200,
    }
}

proof fn lemma_about_zones(args: Map<Seq<char>, Json>)
    ensures
        has_part(text_at(args, "url"@), "/clip/v2/resource/zone"@) == is_about_zones(
            args,
        ),
{
    reveal_strlit("");
    reveal_strlit("/clip/v2/resource/zone");
    if has_part(""@, "/clip/v2/resource/zone"@) {
        let i = choose|i: int|
            #[trigger] stands_at(""@, "/clip/v2/resource/zone"@, i);
    }
}

/// Every answer that names the bridge's id teaches it; no other changes what is known of it.
pub proof fn law_the_bridge_learns_its_id(
    inst: InstanceView,
    args: Map<Seq<char>, Json>,
    scene_waits: bool,
)
    requires
        role_of(inst) == Role::Bridge,
    ensures
        held(
            event_outcome(inst, "http_response"@, args, scene_waits).0.scratch,
            HUE_BRIDGE_ID@,
        ) == match words_in(inner(held(args, "body"@), "bridgeid"@)) {
            Some(id) => Some(Json::Str(id)),
            None => held(inst.scratch, HUE_BRIDGE_ID@),
        },
{
    lemma_words();
}

/// An answer that is not about zones is left to the scenes, and so is one about zones that is
/// neither to a write nor a list of them.
pub proof fn law_other_answers_are_left_to_the_scenes(
    before: InstanceView,
    inst: InstanceView,
    args: Map<Seq<char>, Json>,
    scene_waits: bool,
)
    requires
        role_of(inst) == Role::Bridge,
        is_identified(before, inst, args),
        !is_about_zones(args) || {
            &&& !scene_waits
            &&& answered_status(args) < 400
            &&& !same_but_case(answered_method(args), "POST"@)
            &&& !same_but_case(answered_method(args), "PUT"@)
            &&& !same_but_case(answered_method(args), "GET"@) || !(inner(
                held(args, "body"@),
                "data"@,
            ) matches Some(Json::Array(_)))
        },
    ensures
        ({
            let (after, effects) = event_outcome(before, "http_response"@, args, scene_waits);
            &&& effects == seq![EffectView::SceneCollection]
            &&& after == inst
        }),
{
    lemma_words();
    lemma_about_zones(args);
}

/// While a scene waits for a zone, an answer about zones is its own.
pub proof fn law_a_waiting_scene_takes_the_answer(
    before: InstanceView,
    inst: InstanceView,
    args: Map<Seq<char>, Json>,
)
    requires
        role_of(inst) == Role::Bridge,
        is_identified(before, inst, args),
        is_about_zones(args),
    ensures
        ({
            let (after, effects) = event_outcome(before, "http_response"@, args, true);
            &&& effects == seq![EffectView::SceneZone]
            &&& after == inst
        }),
{
    lemma_words();
    lemma_about_zones(args);
}

/// A write that the bridge rejects is over: it is no longer in progress, and the problem names the
/// status. Nothing else changes and nothing is sent.
pub proof fn law_a_rejection_names_its_status(
    before: InstanceView,
    inst: InstanceView,
    args: Map<Seq<char>, Json>,
    status: nat,
)
    requires
        role_of(inst) == Role::Bridge,
        is_about_zones(args),
        status == answered_status(args),
        status >= 400,
        is_identified(before, inst, args),
    ensures
        ({
            let (after, effects) = event_outcome(before, "http_response"@, args, false);
            &&& effects.len() == 0
            &&& keeps_all_but(inst, after, HUE_GROUP_PENDING@, HUE_GROUP_PROBLEM@)
            &&& held(after.scratch, HUE_GROUP_PENDING@) is None
            &&& held(after.scratch, HUE_GROUP_PROBLEM@) == Some(
                Json::Str("Hue rejected the zone write with HTTP "@ + decimal(status)),
            )
        }),
{
    lemma_words();
    lemma_about_zones(args);
}

/// Whether a resource is a zone.
pub open spec fn names_zone(r: Json) -> bool {
    ||| member(r, "type"@) == Some(Json::Str("zone"@))
    ||| member(r, "rtype"@) == Some(Json::Str("zone"@))
}

/// A zone that was made is the first that the answer names: the write in progress then says which
/// it is, all else that it says stays, and the zones are read. `i` is the place of that zone.
pub proof fn law_the_answer_names_the_zone_that_was_made(
    before: InstanceView,
    inst: InstanceView,
    args: Map<Seq<char>, Json>,
    i: int,
    id: Seq<char>,
)
    requires
        role_of(inst) == Role::Bridge,
        is_about_zones(args),
        answered_status(args) < 400,
        same_but_case(answered_method(args), "POST"@),
        is_identified(before, inst, args),
        held(inst.scratch, HUE_GROUP_PENDING@) matches Some(Json::Object(_)),
        0 <= i < list_in(inner(held(args, "body"@), "data"@)).len(),
        names_zone(list_in(inner(held(args, "body"@), "data"@))[i]),
        forall|k: int|
            0 <= k < i ==> !names_zone(#[trigger] list_in(inner(held(args, "body"@), "data"@))[k]),
        ({
            let zone = list_in(inner(held(args, "body"@), "data"@))[i];
            ||| member(zone, "rid"@) == Some(Json::Str(id))
            ||| member(zone, "rid"@) is None && member(zone, "id"@) == Some(Json::Str(id))
        }),
    ensures
        ({
            let (after, effects) = event_outcome(before, "http_response"@, args, false);
            let pending = held(after.scratch, HUE_GROUP_PENDING@);
            &&& only_changes(inst, after, HUE_GROUP_PENDING@)
            &&& pending matches Some(Json::Object(_))
            &&& inner(pending, "zone"@) == Some(Json::Str(id))
            &&& forall|name: Seq<char>|
                name != "zone"@ ==> #[trigger] inner(pending, name) == inner(
                    held(inst.scratch, HUE_GROUP_PENDING@),
                    name,
                )
            &&& reads_again(inst, effects, "zone"@)
        }),
{
    lemma_words();
    lemma_about_zones(args);
    let data = list_in(inner(held(args, "body"@), "data"@));
    let body = held(args, "body"@)->0;
    assert(data == body.items_at("data"@));
    assert forall|k: int| 0 <= k < i implies !is_zone(#[trigger] data[k]) by {
        assert(!names_zone(data[k]));
    }
    lemma_first(data, |r: Json| is_zone(r), i);
    assert(created_zone(body) == Some(id));
}

/// Where the answer names no zone, or none by an id, or no write is in progress, there is nothing
/// to wait for: that is the problem.
pub proof fn law_an_answer_that_names_no_zone_is_a_problem(
    before: InstanceView,
    inst: InstanceView,
    args: Map<Seq<char>, Json>,
)
    requires
        role_of(inst) == Role::Bridge,
        is_about_zones(args),
        answered_status(args) < 400,
        same_but_case(answered_method(args), "POST"@),
        is_identified(before, inst, args),
        !(held(inst.scratch, HUE_GROUP_PENDING@) matches Some(Json::Object(_))) || forall|k: int|
            0 <= k < list_in(inner(held(args, "body"@), "data"@)).len() ==> !names_zone(
                #[trigger] list_in(inner(held(args, "body"@), "data"@))[k],
            ),
    ensures
        ({
            let (after, effects) = event_outcome(before, "http_response"@, args, false);
            &&& effects.len() == 0
            &&& keeps_all_but(inst, after, HUE_GROUP_PENDING@, HUE_GROUP_PROBLEM@)
            &&& held(after.scratch, HUE_GROUP_PENDING@) is None
            &&& held(after.scratch, HUE_GROUP_PROBLEM@) == Some(
                Json::Str("Hue did not identify the zone it created"@),
            )
        }),
{
    lemma_words();
    lemma_about_zones(args);
    let data = list_in(inner(held(args, "body"@), "data"@));
    let body = or_null(held(args, "body"@));
    assert(data == body.items_at("data"@));
    if held(inst.scratch, HUE_GROUP_PENDING@) matches Some(Json::Object(_)) {
        assert forall|k: int| 0 <= k < data.len() implies !is_zone(#[trigger] data[k]) by {
            assert(!names_zone(data[k]));
        }
        lemma_first(data, |r: Json| is_zone(r), data.len() as int);
    }
}

/// Where the first zone that the answer names has no id that can be read, that is the problem too.
/// `i` is the place of that zone.
pub proof fn law_a_zone_without_an_id_is_a_problem(
    before: InstanceView,
    inst: InstanceView,
    args: Map<Seq<char>, Json>,
    i: int,
)
    requires
        role_of(inst) == Role::Bridge,
        is_about_zones(args),
        answered_status(args) < 400,
        same_but_case(answered_method(args), "POST"@),
        is_identified(before, inst, args),
        0 <= i < list_in(inner(held(args, "body"@), "data"@)).len(),
        names_zone(list_in(inner(held(args, "body"@), "data"@))[i]),
        forall|k: int|
            0 <= k < i ==> !names_zone(#[trigger] list_in(inner(held(args, "body"@), "data"@))[k]),
        ({
            let zone = list_in(inner(held(args, "body"@), "data"@))[i];
            &&& words_in(member(zone, "rid"@)) is None
            &&& member(zone, "rid"@) is Some || words_in(member(zone, "id"@)) is None
        }),
    ensures
        ({
            let (after, effects) = event_outcome(before, "http_response"@, args, false);
            &&& effects.len() == 0
            &&& keeps_all_but(inst, after, HUE_GROUP_PENDING@, HUE_GROUP_PROBLEM@)
            &&& held(after.scratch, HUE_GROUP_PENDING@) is None
            &&& held(after.scratch, HUE_GROUP_PROBLEM@) == Some(
                Json::Str("Hue did not identify the zone it created"@),
            )
        }),
{
    lemma_words();
    lemma_about_zones(args);
    let data = list_in(inner(held(args, "body"@), "data"@));
    let body = held(args, "body"@)->0;
    assert(data == body.items_at("data"@));
    assert forall|k: int| 0 <= k < i implies !is_zone(#[trigger] data[k]) by {
        assert(!names_zone(data[k]));
    }
    lemma_first(data, |r: Json| is_zone(r), i);
    assert(created_zone(body) is None);
}

/// Once a zone has been rewritten the zones are read, and nothing changes until they are seen.
pub proof fn law_a_rewritten_zone_is_read(
    before: InstanceView,
    inst: InstanceView,
    args: Map<Seq<char>, Json>,
)
    requires
        role_of(inst) == Role::Bridge,
        is_about_zones(args),
        answered_status(args) < 400,
        same_but_case(answered_method(args), "PUT"@),
        is_identified(before, inst, args),
    ensures
        ({
            let (after, effects) = event_outcome(before, "http_response"@, args, false);
            &&& after == inst
            &&& reads_again(inst, effects, "zone"@)
        }),
{
    lemma_words();
    lemma_about_zones(args);
    reveal_strlit("POST");
    reveal_strlit("PUT");
    assert("POST"@.len() != "PUT"@.len());
}

/// Whether an answer is the list of the bridge's zones.
pub open spec fn is_list_of_zones(args: Map<Seq<char>, Json>) -> bool {
    &&& is_about_zones(args)
    &&& answered_status(args) < 400
    &&& same_but_case(answered_method(args), "GET"@)
    &&& inner(held(args, "body"@), "data"@) matches Some(Json::Array(_))
}

/// Whether the bridge remembers the zones of a list, in their order.
pub open spec fn remembers_zones(after: InstanceView, args: Map<Seq<char>, Json>) -> bool {
    held(after.scratch, HUE_ZONES@) == Some(
        Json::Array(
            list_in(inner(held(args, "body"@), "data"@)).filter(|r: Json| names_zone(r)),
        ),
    )
}

proof fn lemma_zones_listed(
    before: InstanceView,
    inst: InstanceView,
    args: Map<Seq<char>, Json>,
)
    requires
        role_of(inst) == Role::Bridge,
        is_identified(before, inst, args),
        is_list_of_zones(args),
    ensures
        ({
            let data = list_in(inner(held(args, "body"@), "data"@));
            let zones = Json::Array(data.filter(|r: Json| names_zone(r)));
            let seen = inst.with_scratch(inst.scratch.insert(HUE_ZONES@, zones));
            event_outcome(before, "http_response"@, args, false) == (
                inst.with_scratch(finished(seen)),
                Seq::<EffectView>::empty(),
            )
        }),
{
    lemma_words();
    lemma_about_zones(args);
    reveal_strlit("POST");
    reveal_strlit("PUT");
    reveal_strlit("GET");
    let method = answered_method(args);
    assert("POST"@.len() != "GET"@.len());
    assert(!same_but_case(method, "PUT"@)) by {
        assert("PUT"@[0] == 'P' && "GET"@[0] == 'G');
        if same_but_case(method, "PUT"@) {
            assert(lower(method[0]) == lower('P'));
            assert(lower(method[0]) == lower('G'));
        }
    }
    let f = |r: Json| is_zone(r);
    let g = |r: Json| names_zone(r);
    assert(f =~= g);
}

/// The zones of the bridge are remembered as it lists them. Where no write is in progress, or the
/// bridge has not said yet which zone it made, nothing else changes.
pub proof fn law_the_zones_are_remembered(
    before: InstanceView,
    inst: InstanceView,
    args: Map<Seq<char>, Json>,
)
    requires
        role_of(inst) == Role::Bridge,
        is_identified(before, inst, args),
        is_list_of_zones(args),
        words_in(inner(held(inst.scratch, HUE_GROUP_PENDING@), "zone"@)) is None,
    ensures
        ({
            let (after, effects) = event_outcome(before, "http_response"@, args, false);
            &&& effects.len() == 0
            &&& remembers_zones(after, args)
            &&& only_changes(inst, after, HUE_ZONES@)
        }),
{
    lemma_words();
    lemma_zones_listed(before, inst, args);
}

/// Whether a device differs in the zones, the write in progress and the problem at most.
pub open spec fn gives_up(
    before: InstanceView,
    after: InstanceView,
    problem: Seq<char>,
) -> bool {
    &&& after.device == before.device
    &&& after.properties == before.properties
    &&& held(after.scratch, HUE_GROUP_PENDING@) is None
    &&& held(after.scratch, HUE_GROUP_PROBLEM@) == Some(Json::Str(problem))
    &&& forall|name: Seq<char>|
        name != HUE_ZONES@ && name != HUE_GROUP_PENDING@ && name != HUE_GROUP_PROBLEM@
            ==> #[trigger] held(after.scratch, name) == held(before.scratch, name)
}

/// Whether a link says that a zone was made for a group.
pub open spec fn is_own(
    link: Option<Json>,
    bridge: Option<Json>,
    id: Seq<char>,
    zone: Json,
    ids: Seq<Seq<char>>,
    token: Seq<char>,
) -> bool {
    &&& link matches Some(doc)
    &&& names_in(doc) == set![
        "ownership"@,
        "bridge_id"@,
        "zone"@,
        "grouped_light"@,
        "light_ids"@,
        "token"@,
        "name"@,
    ]
    &&& member(doc, "ownership"@) == Some(Json::Str("juno"@))
    &&& member(doc, "bridge_id"@) == match bridge {
        Some(id) => Some(id),
        None => Some(Json::Null),
    }
    &&& member(doc, "zone"@) == Some(Json::Str(id))
    &&& words_in(member(doc, "grouped_light"@)) == zone_service(zone)
    &&& lists_texts(member(doc, "light_ids"@), ids)
    &&& member(doc, "token"@) == Some(Json::Str(token))
    &&& member(doc, "name"@) == Some(Json::Str(zone_title(zone)))
}

/// Whether texts are those of a list, as they stand in it.
pub open spec fn are_texts_of(items: Seq<Json>, ids: Seq<Seq<char>>) -> bool {
    let texts = items.filter(|item: Json| item is Str);
    &&& texts.len() == ids.len()
    &&& forall|i: int| 0 <= i < ids.len() ==> #[trigger] texts[i] == Json::Str(ids[i])
}

proof fn lemma_texts_of(items: Seq<Json>, ids: Seq<Seq<char>>)
    requires
        are_texts_of(items, ids),
    ensures
        items.filter_map(|id: Json| id.as_str()) == ids,
    decreases items.len(),
{
    let f = |id: Json| id.as_str();
    let p = |item: Json| item is Str;
    if items.len() == 0 {
        reveal_with_fuel(Seq::filter_map, 1);
        reveal_with_fuel(Seq::filter, 1);
        assert(items.filter_map(f) =~= ids);
    } else {
        let n = items.len() - 1;
        let rest = items.drop_last();
        items.lemma_filter_map_take_succ(f, n);
        assert(items.take(n + 1) =~= items);
        assert(items.take(n) =~= rest);
        reveal_with_fuel(Seq::filter, 1);
        if p(items.last()) {
            assert(items.filter(p) =~= rest.filter(p).push(items.last()));
            let fewer = ids.drop_last();
            assert forall|i: int| 0 <= i < fewer.len() implies #[trigger] rest.filter(p)[i]
                == Json::Str(fewer[i]) by {
                assert(items.filter(p)[i] == rest.filter(p)[i]);
            }
            lemma_texts_of(rest, fewer);
            assert(items.filter(p)[ids.len() - 1] == items.last());
            assert(items.filter_map(f) =~= ids);
        } else {
            assert(items.filter(p) =~= rest.filter(p));
            lemma_texts_of(rest, ids);
            assert(items.filter_map(f) =~= ids);
        }
    }
}

proof fn lemma_all_texts(items: Seq<Json>, ids: Seq<Seq<char>>)
    requires
        items.len() == ids.len(),
        forall|i: int| 0 <= i < ids.len() ==> #[trigger] items[i] == Json::Str(ids[i]),
    ensures
        are_texts_of(items, ids),
    decreases items.len(),
{
    let p = |item: Json| item is Str;
    reveal_with_fuel(Seq::filter, 1);
    if items.len() > 0 {
        let rest = items.drop_last();
        let fewer = ids.drop_last();
        assert forall|i: int| 0 <= i < fewer.len() implies #[trigger] rest[i] == Json::Str(
            fewer[i],
        ) by {
            assert(items[i] == rest[i]);
        }
        lemma_all_texts(rest, fewer);
        assert(items[items.len() - 1] == items.last());
        assert(items.filter(p) =~= rest.filter(p).push(items.last()));
        assert forall|i: int| 0 <= i < ids.len() implies #[trigger] items.filter(p)[i]
            == Json::Str(ids[i]) by {
            if i < fewer.len() {
                assert(rest.filter(p)[i] == Json::Str(fewer[i]));
            }
        }
    }
}

/// When the zones are read after a write, the write is over. The zone must be there, must be one
/// that can be commanded, and must have the lights that were asked for and the mark: each that is
/// missing is a problem. Where nothing is, the zone becomes the group's own.
pub proof fn law_a_write_is_held_against_what_the_bridge_shows(
    before: InstanceView,
    inst: InstanceView,
    args: Map<Seq<char>, Json>,
    id: Seq<char>,
    ids: Seq<Seq<char>>,
    token: Seq<char>,
    group: DeviceId,
)
    requires
        role_of(inst) == Role::Bridge,
        is_identified(before, inst, args),
        is_list_of_zones(args),
        inner(held(inst.scratch, HUE_GROUP_PENDING@), "zone"@) == Some(Json::Str(id)),
        are_texts_of(list_in(inner(held(inst.scratch, HUE_GROUP_PENDING@), "light_ids"@)), ids),
        inner(held(inst.scratch, HUE_GROUP_PENDING@), "token"@) == Some(Json::Str(token)),
        count_in(inner(held(inst.scratch, HUE_GROUP_PENDING@), "group"@)) matches Some(n)
            && group as int == n as int % 0x1_0000_0000,
    ensures
        ({
            let (after, effects) = event_outcome(before, "http_response"@, args, false);
            let zone = zone_known(after, id);
            let pending = held(inst.scratch, HUE_GROUP_PENDING@);
            let service = zone is Some && zone_service(zone->0) is Some;
            let asked = zone_lights(zone->0) == ids && has_part(zone_title(zone->0), token);
            &&& effects.len() == 0
            &&& remembers_zones(after, args)
            &&& held(after.scratch, HUE_GROUP_PENDING@) is None
            &&& zone is None ==> gives_up(
                inst,
                after,
                "Hue did not return the zone after writing it"@,
            )
            &&& zone is Some && !service ==> gives_up(
                inst,
                after,
                "Hue created a zone without grouped-light control"@,
            )
            &&& service && !asked ==> gives_up(
                inst,
                after,
                "Hue returned a zone that did not match Juno's requested name and members"@,
            )
            &&& service && asked ==> {
                &&& is_own(
                    inner(held(after.scratch, HUE_GROUP_LINKS@), decimal(group as nat)),
                    inner(pending, "bridge_id"@),
                    id,
                    zone->0,
                    ids,
                    token,
                )
                &&& held(after.scratch, HUE_GROUP_PROBLEM@) is None
                &&& keeps_other_links(inst, after, group)
                &&& held(after.scratch, HUE_BRIDGE_ID@) == held(inst.scratch, HUE_BRIDGE_ID@)
                &&& after.properties == inst.properties
            }
        }),
{
    lemma_words();
    lemma_zones_listed(before, inst, args);
    let data = list_in(inner(held(args, "body"@), "data"@));
    let zones = Json::Array(data.filter(|r: Json| names_zone(r)));
    let seen = inst.with_scratch(inst.scratch.insert(HUE_ZONES@, zones));
    let (after, _) = event_outcome(before, "http_response"@, args, false);
    let pending = held(inst.scratch, HUE_GROUP_PENDING@)->0;
    assert(held(seen.scratch, HUE_GROUP_PENDING@) == Some(pending));
    lemma_texts_of(list_in(member(pending, "light_ids"@)), ids);
    assert(expected_lights(pending) == ids);
    assert(held(after.scratch, HUE_ZONES@) == Some(zones));
    assert(zones_known(after) == zones_known(seen));
    assert(zone_known(after, id) == zone_known(seen, id));
    assert(device_of(count_in(member(pending, "group"@))->0) == group);
    if let Some(zone) = zone_known(seen, id) {
        if zone_service(zone) is Some && zone_lights(zone) == ids && has_part(
            zone_title(zone),
            token,
        ) {
            let link = inner(held(after.scratch, HUE_GROUP_LINKS@), decimal(group as nat));
            assert(names_in(link->0) =~= set![
                "ownership"@,
                "bridge_id"@,
                "zone"@,
                "grouped_light"@,
                "light_ids"@,
                "token"@,
                "name"@,
            ]);
            assert(links(seen.scratch) == links(inst.scratch));
            assert forall|other: DeviceId| other != group implies inner(
                held(after.scratch, HUE_GROUP_LINKS@),
                #[trigger] decimal(other as nat),
            ) == inner(held(inst.scratch, HUE_GROUP_LINKS@), decimal(other as nat)) by {
                if decimal(group as nat) == decimal(other as nat) {
                    law_decimal_is_unique(group as nat, other as nat);
                }
                assert(inner(held(inst.scratch, HUE_GROUP_LINKS@), decimal(other as nat)) == held(
                    links(inst.scratch),
                    decimal(other as nat),
                ));
            }
        }
    }
}

/// A write whose group is not known is only over: the zone came back as it was asked for, and
/// there is nobody to give it to.
pub proof fn law_a_write_for_nobody_is_only_over(
    before: InstanceView,
    inst: InstanceView,
    args: Map<Seq<char>, Json>,
    id: Seq<char>,
    ids: Seq<Seq<char>>,
    token: Seq<char>,
)
    requires
        role_of(inst) == Role::Bridge,
        is_identified(before, inst, args),
        is_list_of_zones(args),
        inner(held(inst.scratch, HUE_GROUP_PENDING@), "zone"@) == Some(Json::Str(id)),
        are_texts_of(list_in(inner(held(inst.scratch, HUE_GROUP_PENDING@), "light_ids"@)), ids),
        inner(held(inst.scratch, HUE_GROUP_PENDING@), "token"@) == Some(Json::Str(token)),
        count_in(inner(held(inst.scratch, HUE_GROUP_PENDING@), "group"@)) is None,
        ({
            let zone = zone_known(event_outcome(before, "http_response"@, args, false).0, id);
            &&& zone matches Some(z)
            &&& zone_service(z) is Some
            &&& zone_lights(z) == ids
            &&& has_part(zone_title(z), token)
        }),
    ensures
        ({
            let (after, effects) = event_outcome(before, "http_response"@, args, false);
            &&& effects.len() == 0
            &&& remembers_zones(after, args)
            &&& held(after.scratch, HUE_GROUP_PENDING@) is None
            &&& keeps_all_but(inst, after, HUE_ZONES@, HUE_GROUP_PENDING@)
        }),
{
    lemma_words();
    lemma_zones_listed(before, inst, args);
    let data = list_in(inner(held(args, "body"@), "data"@));
    let zones = Json::Array(data.filter(|r: Json| names_zone(r)));
    let seen = inst.with_scratch(inst.scratch.insert(HUE_ZONES@, zones));
    let (after, _) = event_outcome(before, "http_response"@, args, false);
    let pending = held(inst.scratch, HUE_GROUP_PENDING@)->0;
    assert(held(seen.scratch, HUE_GROUP_PENDING@) == Some(pending));
    lemma_texts_of(list_in(member(pending, "light_ids"@)), ids);
    assert(expected_lights(pending) == ids);
    assert(held(after.scratch, HUE_ZONES@) == Some(zones));
    assert(zones_known(after) == zones_known(seen));
    assert(zone_known(after, id) == zone_known(seen, id));
}

/// Once the bridge shows the zone of a group with exactly the lights that were written to it, under
/// a name with the mark, the group is commanded through it.
pub proof fn law_a_synchronized_zone_is_commanded(
    inst: InstanceView,
    request: GroupRequestView,
    xy: Pair,
    args: Map<Seq<char>, Json>,
    id: Seq<char>,
    token: Seq<char>,
    service: Seq<char>,
)
    requires
        role_of(inst) == Role::Bridge,
        request.operation is Synchronize,
        group_outcome(inst, request, xy).1.disposition == GroupDisposition::Queued,
        is_list_of_zones(args),
        inner(held(args, "body"@), "bridgeid"@) is None,
        inner(
            inner(held(inst.scratch, HUE_GROUP_LINKS@), decimal(request.group as nat)),
            "zone"@,
        ) == Some(Json::Str(id)),
        inner(
            inner(held(inst.scratch, HUE_GROUP_LINKS@), decimal(request.group as nat)),
            "token"@,
        ) == Some(Json::Str(token)),
        ({
            let asked = group_outcome(inst, request, xy).0;
            let shown = zone_known(event_outcome(asked, "http_response"@, args, false).0, id);
            &&& shown matches Some(zone)
            &&& lists_children(zone, group_lights(request.members)->Ok_0)
            &&& zone_service(zone) == Some(service)
            &&& has_part(zone_title(zone), token)
        }),
    ensures
        ({
            let asked = group_outcome(inst, request, xy).0;
            let confirmed = event_outcome(asked, "http_response"@, args, false).0;
            usable_service(confirmed, request) == Ok::<Seq<char>, Seq<char>>(service)
        }),
{
    lemma_words();
    let asked = group_outcome(inst, request, xy).0;
    let ids = group_lights(request.members)->Ok_0;
    law_a_zone_is_brought_to_the_lights_of_the_group(inst, request, xy);
    lemma_all_texts(
        list_in(inner(held(asked.scratch, HUE_GROUP_PENDING@), "light_ids"@)),
        ids,
    );
    law_a_write_is_held_against_what_the_bridge_shows(
        asked,
        asked,
        args,
        id,
        ids,
        token,
        request.group,
    );
    let confirmed = event_outcome(asked, "http_response"@, args, false).0;
    let zone = zone_known(confirmed, id)->0;
    lemma_children_are_lights(zone, request);
    let link = inner(held(confirmed.scratch, HUE_GROUP_LINKS@), decimal(request.group as nat));
    assert(link_of(confirmed, request.group) == link);
}

proof fn lemma_children_are_lights(zone: Json, request: GroupRequestView)
    requires
        group_lights(request.members) is Ok,
        lists_children(zone, group_lights(request.members)->Ok_0),
    ensures
        zone_lights(zone) == group_lights(request.members)->Ok_0,
{
    let ids = group_lights(request.members)->Ok_0;
    let children = list_in(member(zone, "children"@));
    let f = |c: Json| light_rid(c);
    assert(children == zone.items_at("children"@));
    lemma_all_mapped(children, f, ids);
    law_sorted_holds_the_same(member_ids(request.members));
    let all = member_ids(request.members).to_set();
    assert(ids.to_set() =~= all) by {
        assert forall|id: Seq<char>| ids.to_set().contains(id) <==> all.contains(id) by {
            assert(ids.contains(id) <==> member_ids(request.members).contains(id));
        }
    }
}

proof fn lemma_all_mapped(
    s: Seq<Json>,
    f: spec_fn(Json) -> Option<Seq<char>>,
    ids: Seq<Seq<char>>,
)
    requires
        s.len() == ids.len(),
        forall|i: int| 0 <= i < s.len() ==> f(#[trigger] s[i]) == Some(ids[i]),
    ensures
        s.filter_map(f) == ids,
    decreases s.len(),
{
    if s.len() == 0 {
        reveal_with_fuel(Seq::filter_map, 1);
        assert(s.filter_map(f) =~= ids);
    } else {
        let n = s.len() - 1;
        let rest = s.drop_last();
        assert forall|i: int| 0 <= i < rest.len() implies f(#[trigger] rest[i]) == Some(
            ids.drop_last()[i],
        ) by {
            assert(rest[i] == s[i]);
        }
        lemma_all_mapped(rest, f, ids.drop_last());
        s.lemma_filter_map_take_succ(f, n);
        assert(s.take(n + 1) =~= s);
        assert(s.take(n) =~= rest);
        assert(f(s[n]) == Some(ids[n]));
        assert(s.filter_map(f) =~= ids.drop_last().push(ids.last()));
        assert(ids.drop_last().push(ids.last()) =~= ids);
    }
}

} // verus!
