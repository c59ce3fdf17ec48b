//! What is read off the bridge's zones, and what is written to them for a group.
use vstd::prelude::*;

use crate::group::{
    first_problem, group_lights, member_ids, GroupDisposition, GroupMemberView, GroupRequestView,
};
use crate::group_request::{create_body, group_outcome, synchronize_body};
use crate::host::{CallView, DeviceId, InstanceView};
use crate::json::Json;
use crate::law_terms::{asks, counted, held, inner, key_set, list_in, member, names_in, words_in};
use crate::light::Pair;
use crate::order::{law_sorted_holds_the_same, lemma_sorted_len, rising, sorted};
use crate::role::{role_of, Role};
use crate::text::{decimal, has_part};
use crate::zone::{
    bridge_known, children_json, first, light_rid, link_of, link_token, owned_name, zone_known,
    zone_lights, zone_service, zone_title, zone_token, zones_known, HUE_BRIDGE_ID, HUE_GROUP_LINKS,
    HUE_GROUP_PENDING, HUE_ZONES,
};

verus! {

/// The words that laws tell apart are different.
proof fn lemma_words()
    ensures
        "on"@.len() == 2 && "on"@[0] == 'o',
        "rid"@.len() == 3,
        "rtype"@.len() == 5 && "rtype"@[0] == 'r',
        "light"@.len() == 5 && "light"@[0] == 'l',
        "grouped_light"@.len() == 13,
        "children"@.len() == 8 && "children"@[0] == 'c',
        "services"@.len() == 8 && "services"@[0] == 's',
        "metadata"@.len() == 8 && "metadata"@[0] == 'm',
        "name"@.len() == 4 && "name"@[0] == 'n',
        "id"@.len() == 2 && "id"@[0] == 'i',
        "type"@.len() == 4 && "type"@[0] == 't',
        "zone"@.len() == 4 && "zone"@[0] == 'z',
        "ownership"@.len() == 9 && "ownership"@[0] == 'o' && "ownership"@[1] == 'w',
        "juno"@.len() == 4 && "juno"@[0] == 'j',
        "external"@.len() == 8 && "external"@[0] == 'e',
        "bridge_id"@.len() == 9 && "bridge_id"@[0] == 'b',
        "light_ids"@.len() == 9 && "light_ids"@[0] == 'l',
        "token"@.len() == 5 && "token"@[0] == 't',
        "group"@.len() == 5 && "group"@[0] == 'g',
        "operation"@.len() == 9 && "operation"@[0] == 'o' && "operation"@[1] == 'p',
        "create"@.len() == 6 && "create"@[0] == 'c',
        "synchronize"@.len() == 11 && "synchronize"@[0] == 's',
        "pending"@.len() == 7 && "pending"@[0] == 'p' && "pending"@[1] == 'e',
        "archetype"@.len() == 9 && "archetype"@[0] == 'a',
        "other"@.len() == 5 && "other"@[0] == 'o',
        "resource"@.len() == 8 && "resource"@[0] == 'r',
        "members"@.len() == 7 && "members"@[0] == 'm',
        "exact_match"@.len() == 11 && "exact_match"@[0] == 'e',
        "controllable"@.len() == 12 && "controllable"@[0] == 'c',
        "juno_owned"@.len() == 10,
        "bridge_ready"@.len() == 12 && "bridge_ready"@[0] == 'b',
        "linked"@.len() == 6 && "linked"@[0] == 'l',
        "zones"@.len() == 5 && "zones"@[0] == 'z',
        "problem"@.len() == 7 && "problem"@[0] == 'p' && "problem"@[1] == 'r',
        "valid"@.len() == 5 && "valid"@[0] == 'v',
{
    reveal_strlit("on");
    reveal_strlit("rid");
    reveal_strlit("rtype");
    reveal_strlit("light");
    reveal_strlit("grouped_light");
    reveal_strlit("children");
    reveal_strlit("services");
    reveal_strlit("metadata");
    reveal_strlit("name");
    reveal_strlit("id");
    reveal_strlit("type");
    reveal_strlit("zone");
    reveal_strlit("ownership");
    reveal_strlit("juno");
    reveal_strlit("external");
    reveal_strlit("bridge_id");
    reveal_strlit("light_ids");
    reveal_strlit("token");
    reveal_strlit("group");
    reveal_strlit("operation");
    reveal_strlit("create");
    reveal_strlit("synchronize");
    reveal_strlit("pending");
    reveal_strlit("archetype");
    reveal_strlit("other");
    reveal_strlit("resource");
    reveal_strlit("members");
    reveal_strlit("exact_match");
    reveal_strlit("controllable");
    reveal_strlit("juno_owned");
    reveal_strlit("bridge_ready");
    reveal_strlit("linked");
    reveal_strlit("zones");
    reveal_strlit("problem");
    reveal_strlit("valid");
}

/// Whether an item of a zone stands for a light.
pub open spec fn names_light(child: Json, id: Seq<char>) -> bool {
    &&& member(child, "rtype"@) == Some(Json::Str("light"@))
    &&& member(child, "rid"@) == Some(Json::Str(id))
}

/// The lights of a zone are those that its children name, each of them once, in order.
pub proof fn law_a_zone_has_the_lights_it_names(zone: Json)
    ensures
        rising(zone_lights(zone)),
        forall|id: Seq<char>| #[trigger]
            zone_lights(zone).contains(id) <==> exists|i: int|
                0 <= i < list_in(member(zone, "children"@)).len() && names_light(
                    #[trigger] list_in(member(zone, "children"@))[i],
                    id,
                ),
{
    let children = list_in(member(zone, "children"@));
    let f = |c: Json| light_rid(c);
    let ids = children.filter_map(f);
    assert(children == zone.items_at("children"@));
    law_sorted_holds_the_same(ids);
    assert forall|id: Seq<char>| #[trigger] zone_lights(zone).contains(id) <==> exists|i: int|
        0 <= i < children.len() && names_light(#[trigger] children[i], id) by {
        assert(zone_lights(zone).contains(id) <==> ids.contains(id));
        if ids.contains(id) {
            children.lemma_filter_map_contains(f, id);
            let t = choose|t: Json| #[trigger] children.contains(t) && f(t) == Some(id);
            let i = choose|i: int| 0 <= i < children.len() && children[i] == t;
            assert(names_light(children[i], id));
        }
        if exists|i: int| 0 <= i < children.len() && names_light(#[trigger] children[i], id) {
            let i = choose|i: int|
                0 <= i < children.len() && names_light(#[trigger] children[i], id);
            lemma_mapped(children, f, i, id);
        }
    }
}

proof fn lemma_mapped(s: Seq<Json>, f: spec_fn(Json) -> Option<Seq<char>>, i: int, x: Seq<char>)
    requires
        0 <= i < s.len(),
        f(s[i]) == Some(x),
    ensures
        s.filter_map(f).contains(x),
    decreases s.len(),
{
    let n = s.len() - 1;
    s.lemma_filter_map_take_succ(f, n);
    assert(s.take(n + 1) =~= s);
    assert(s.take(n) =~= s.drop_last());
    let rest = s.take(n).filter_map(f);
    if i < n {
        lemma_mapped(s.take(n), f, i, x);
        let k = choose|k: int| 0 <= k < rest.len() && rest[k] == x;
        assert(s.filter_map(f)[k] == x);
    } else {
        assert(s.filter_map(f)[rest.len() as int] == x);
    }
}

/// The first item with a property is the one at the place before which none has it.
pub proof fn lemma_first(items: Seq<Json>, p: spec_fn(Json) -> bool, i: int)
    requires
        0 <= i <= items.len(),
        i < items.len() ==> p(items[i]),
        forall|k: int| 0 <= k < i ==> !p(#[trigger] items[k]),
    ensures
        first(items, p) == if i < items.len() {
            Some(items[i])
        } else {
            None
        },
    decreases items.len(),
{
    if items.len() > 0 && i > 0 {
        assert(!p(items[0]));
        let rest = items.drop_first();
        assert forall|k: int| 0 <= k < i - 1 implies !p(#[trigger] rest[k]) by {
            assert(rest[k] == items[k + 1]);
        }
        if i < items.len() {
            assert(rest[i - 1] == items[i]);
        }
        lemma_first(rest, p, i - 1);
    }
}

/// A zone is commanded through the first of its services that commands lights as a group; through
/// none where there is none. `i` is the place of that service, or the number of services.
pub proof fn law_a_zone_is_commanded_through_its_first_service(zone: Json, i: int)
    requires
        0 <= i <= list_in(member(zone, "services"@)).len(),
        i < list_in(member(zone, "services"@)).len() ==> member(
            list_in(member(zone, "services"@))[i],
            "rtype"@,
        ) == Some(Json::Str("grouped_light"@)),
        forall|k: int|
            0 <= k < i ==> member(#[trigger] list_in(member(zone, "services"@))[k], "rtype"@)
                != Some(Json::Str("grouped_light"@)),
    ensures
        zone_service(zone) == if i < list_in(member(zone, "services"@)).len() {
            words_in(member(list_in(member(zone, "services"@))[i], "rid"@))
        } else {
            None
        },
{
    let services = list_in(member(zone, "services"@));
    assert(services == zone.items_at("services"@));
    lemma_first(services, |s: Json| s.is_at("rtype"@, "grouped_light"@), i);
}

/// The zone with an id is the first that has it. `i` is its place, or the number of zones.
pub proof fn law_a_zone_is_known_by_its_id(inst: InstanceView, id: Seq<char>, i: int)
    requires
        0 <= i <= list_in(held(inst.scratch, HUE_ZONES@)).len(),
        i < list_in(held(inst.scratch, HUE_ZONES@)).len() ==> member(
            list_in(held(inst.scratch, HUE_ZONES@))[i],
            "id"@,
        ) == Some(Json::Str(id)),
        forall|k: int|
            0 <= k < i ==> member(#[trigger] list_in(held(inst.scratch, HUE_ZONES@))[k], "id"@)
                != Some(Json::Str(id)),
    ensures
        zone_known(inst, id) == if i < list_in(held(inst.scratch, HUE_ZONES@)).len() {
            Some(list_in(held(inst.scratch, HUE_ZONES@))[i])
        } else {
            None
        },
{
    let zones = list_in(held(inst.scratch, HUE_ZONES@));
    assert(zones == zones_known(inst));
    lemma_first(zones, |z: Json| z.is_at("id"@, id), i);
}

/// What the bridge remembers is read back where it is kept: its own id, the link of each group by
/// its number, the name of a zone, and the mark of a record.
pub proof fn law_memories_are_read_where_they_are_kept(
    inst: InstanceView,
    group: DeviceId,
    doc: Json,
)
    ensures
        bridge_known(inst) == words_in(held(inst.scratch, HUE_BRIDGE_ID@)),
        link_of(inst, group) == inner(held(inst.scratch, HUE_GROUP_LINKS@), decimal(group as nat)),
        zone_title(doc) == match words_in(inner(member(doc, "metadata"@), "name"@)) {
            Some(name) => name,
            None => "Unnamed Hue zone"@,
        },
        link_token(doc) == match words_in(member(doc, "token"@)) {
            Some(token) => token,
            None => ""@,
        },
{
}

/// The light that a member stands for.
pub open spec fn light_of(m: GroupMemberView) -> Option<Seq<char>> {
    words_in(held(m.instance.properties, "Light id"@))
}

/// Whether a member stands for a light.
pub open spec fn has_light(m: GroupMemberView) -> bool {
    light_of(m) matches Some(id) && id.len() > 0
}

proof fn lemma_no_problem(members: Seq<GroupMemberView>)
    ensures
        first_problem(members) is None <==> forall|i: int|
            0 <= i < members.len() ==> has_light(#[trigger] members[i]),
    decreases members.len(),
{
    if members.len() > 0 {
        let rest = members.drop_first();
        lemma_no_problem(rest);
        if first_problem(members) is None {
            assert forall|i: int| 0 <= i < members.len() implies has_light(
                #[trigger] members[i],
            ) by {
                if i > 0 {
                    assert(has_light(rest[i - 1]));
                }
            }
        }
        if forall|i: int| 0 <= i < members.len() ==> has_light(#[trigger] members[i]) {
            assert(has_light(members[0]));
            assert forall|i: int| 0 <= i < rest.len() implies has_light(#[trigger] rest[i]) by {
                assert(rest[i] == members[i + 1]);
            }
        }
    }
}

/// A group has lights exactly when it has members, each of them stands for a light, and no two
/// for the same. They are then those of its members, in order.
pub proof fn law_a_group_has_the_lights_of_its_members(members: Seq<GroupMemberView>)
    ensures
        group_lights(members) is Ok <==> {
            &&& members.len() > 0
            &&& forall|i: int| 0 <= i < members.len() ==> has_light(#[trigger] members[i])
            &&& forall|i: int, j: int|
                #![trigger members[i], members[j]]
                0 <= i < j < members.len() ==> light_of(members[i]) != light_of(members[j])
        },
        group_lights(members) matches Ok(ids) ==> {
            &&& rising(ids)
            &&& ids.len() == members.len()
            &&& forall|id: Seq<char>| #[trigger]
                ids.contains(id) <==> exists|i: int|
                    0 <= i < members.len() && light_of(#[trigger] members[i]) == Some(id)
        },
{
    lemma_no_problem(members);
    let ids = member_ids(members);
    if first_problem(members) is None {
        assert forall|i: int| 0 <= i < members.len() implies light_of(#[trigger] members[i])
            == Some(ids[i]) by {
            assert(has_light(members[i]));
        }
        if ids.no_duplicates() {
            assert forall|i: int, j: int|
                #![trigger members[i], members[j]]
                0 <= i < j < members.len() implies light_of(members[i]) != light_of(members[j]) by {
                assert(ids[i] != ids[j]);
            }
        }
        if forall|i: int, j: int|
            #![trigger members[i], members[j]]
            0 <= i < j < members.len() ==> light_of(members[i]) != light_of(members[j]) {
            assert forall|i: int, j: int|
                0 <= i < ids.len() && 0 <= j < ids.len() && i != j implies ids[i] != ids[j] by {
                assert(light_of(members[i]) == Some(ids[i]));
                assert(light_of(members[j]) == Some(ids[j]));
            }
            assert(ids.no_duplicates());
        }
    }
    if group_lights(members) is Ok {
        law_sorted_holds_the_same(ids);
        let s = sorted(ids.to_set());
        assert(s.to_set() =~= ids.to_set()) by {
            assert forall|e: Seq<char>| s.to_set().contains(e) == ids.to_set().contains(e) by {
                assert(s.contains(e) <==> ids.contains(e));
            }
        }
        lemma_sorted_len(ids, s);
        assert forall|id: Seq<char>| #[trigger] s.contains(id) <==> exists|i: int|
            0 <= i < members.len() && light_of(#[trigger] members[i]) == Some(id) by {
            if ids.contains(id) {
                let k = choose|k: int| 0 <= k < ids.len() && ids[k] == id;
                assert(light_of(members[k]) == Some(id));
            }
            if exists|i: int|
                0 <= i < members.len() && light_of(#[trigger] members[i]) == Some(id) {
                let k = choose|k: int|
                    0 <= k < members.len() && light_of(#[trigger] members[k]) == Some(id);
                assert(ids[k] == id);
            }
        }
    }
}

/// A group is refused for the first of its members that is no light or has no id, by number.
pub proof fn law_the_first_wrong_member_is_named(members: Seq<GroupMemberView>, i: int)
    requires
        0 <= i < members.len(),
        !has_light(members[i]),
        forall|k: int| 0 <= k < i ==> has_light(#[trigger] members[k]),
    ensures
        group_lights(members) == Err::<Seq<Seq<char>>, Seq<char>>(
            "device "@ + decimal(members[i].device as nat) + (if light_of(members[i]) is None {
                " is not a Hue light"@
            } else {
                " has no Hue light id"@
            }),
        ),
    decreases members.len(),
{
    if i > 0 {
        let rest = members.drop_first();
        assert(has_light(members[0]));
        assert forall|k: int| 0 <= k < i - 1 implies has_light(#[trigger] rest[k]) by {
            assert(rest[k] == members[k + 1]);
        }
        assert(rest[i - 1] == members[i]);
        law_the_first_wrong_member_is_named(rest, i - 1);
        lemma_no_problem(rest);
        lemma_no_problem(members);
        assert(!has_light(rest[i - 1]));
    }
}

/// Where every member stands for a light, a group is refused that has the same one twice, and one
/// that has none.
pub proof fn law_a_light_stands_in_a_group_once(members: Seq<GroupMemberView>)
    requires
        forall|i: int| 0 <= i < members.len() ==> has_light(#[trigger] members[i]),
    ensures
        members.len() == 0 ==> group_lights(members) == Err::<Seq<Seq<char>>, Seq<char>>(
            "the group has no Hue lights"@,
        ),
        (exists|i: int, j: int|
            #![trigger members[i], members[j]]
            0 <= i < j < members.len() && light_of(members[i]) == light_of(members[j]))
            ==> group_lights(members) == Err::<Seq<Seq<char>>, Seq<char>>(
            "the group contains the same Hue light more than once"@,
        ),
{
    lemma_no_problem(members);
    let ids = member_ids(members);
    if exists|i: int, j: int|
        #![trigger members[i], members[j]]
        0 <= i < j < members.len() && light_of(members[i]) == light_of(members[j]) {
        let (i, j) = choose|i: int, j: int|
            #![trigger members[i], members[j]]
            0 <= i < j < members.len() && light_of(members[i]) == light_of(members[j]);
        assert(ids[i] == ids[j]);
    }
}

/// Whether a document lists exactly the given lights as children.
pub open spec fn lists_children(doc: Json, ids: Seq<Seq<char>>) -> bool {
    let children = list_in(member(doc, "children"@));
    &&& children.len() == ids.len()
    &&& forall|i: int|
        0 <= i < ids.len() ==> names_in(#[trigger] children[i]) == set!["rid"@, "rtype"@]
            && names_light(children[i], ids[i])
}

/// Whether an item is a list of exactly the given texts.
pub open spec fn lists_texts(item: Option<Json>, ids: Seq<Seq<char>>) -> bool {
    &&& list_in(item).len() == ids.len()
    &&& forall|i: int| 0 <= i < ids.len() ==> #[trigger] list_in(item)[i] == Json::Str(ids[i])
}

/// Whether a device differs in one memory only.
pub open spec fn only_changes(before: InstanceView, after: InstanceView, place: Seq<char>) -> bool {
    &&& after.device == before.device
    &&& after.properties == before.properties
    &&& forall|name: Seq<char>|
        name != place ==> #[trigger] held(after.scratch, name) == held(before.scratch, name)
}

/// What is remembered of a write to a zone that is not confirmed yet.
pub open spec fn awaits(
    pending: Option<Json>,
    operation: Seq<char>,
    group: DeviceId,
    bridge: Seq<char>,
    ids: Seq<Seq<char>>,
    token: Seq<char>,
    name: Seq<char>,
) -> bool {
    &&& inner(pending, "operation"@) == Some(Json::Str(operation))
    &&& inner(pending, "group"@) == counted(group as u64)
    &&& inner(pending, "bridge_id"@) == Some(Json::Str(bridge))
    &&& lists_texts(inner(pending, "light_ids"@), ids)
    &&& inner(pending, "token"@) == Some(Json::Str(token))
    &&& inner(pending, "name"@) == Some(Json::Str(name))
}

proof fn lemma_children(ids: Seq<Seq<char>>)
    ensures
        ({
            let children = children_json(ids);
            &&& list_in(Some(children)).len() == ids.len()
            &&& forall|i: int|
                0 <= i < ids.len() ==> names_in(#[trigger] list_in(Some(children))[i]) == set![
                    "rid"@,
                    "rtype"@,
                ] && names_light(list_in(Some(children))[i], ids[i])
        }),
{
    lemma_words();
    let children = children_json(ids);
    assert forall|i: int| 0 <= i < ids.len() implies names_in(
        #[trigger] list_in(Some(children))[i],
    ) == set!["rid"@, "rtype"@] && names_light(list_in(Some(children))[i], ids[i]) by {
        assert(names_in(list_in(Some(children))[i]) =~= set!["rid"@, "rtype"@]);
    }
}

/// A zone is made for a group exactly when the group has none linked, no write is in progress, it
/// has lights, and the bridge is known and set up.
pub proof fn law_when_a_zone_is_made(inst: InstanceView, request: GroupRequestView, xy: Pair)
    requires
        role_of(inst) == Role::Bridge,
        request.operation is Create,
    ensures
        group_outcome(inst, request, xy).1.disposition == GroupDisposition::Queued <==> {
            &&& inner(held(inst.scratch, HUE_GROUP_LINKS@), decimal(request.group as nat)) is None
            &&& held(inst.scratch, HUE_GROUP_PENDING@) is None
            &&& group_lights(request.members) is Ok
            &&& words_in(held(inst.scratch, HUE_BRIDGE_ID@)) is Some
            &&& words_in(held(inst.properties, "Bridge address"@)) matches Some(address)
                && address.len() > 0
        },
        group_outcome(inst, request, xy).1.disposition == GroupDisposition::Queued
            || group_outcome(inst, request, xy).1.disposition == GroupDisposition::Refused,
{
}

/// Whether a call writes a zone with a name and exactly the given lights.
pub open spec fn writes_zone(
    call: CallView,
    method: Seq<char>,
    url: Seq<char>,
    key: Seq<char>,
    name: Seq<char>,
    archetype: Option<Json>,
    ids: Seq<Seq<char>>,
) -> bool {
    exists|doc: Json|
        {
            &&& #[trigger] asks(call, method, url, key, doc)
            &&& names_in(doc) == set!["metadata"@, "children"@]
            &&& inner(member(doc, "metadata"@), "name"@) == Some(Json::Str(name))
            &&& inner(member(doc, "metadata"@), "archetype"@) == archetype
            &&& lists_children(doc, ids)
        }
}

/// A zone that is made for a group is asked for with the group's marked name and exactly its
/// lights, and what was asked for is remembered until the bridge has confirmed it.
pub proof fn law_a_zone_is_made_with_the_lights_of_the_group(
    inst: InstanceView,
    request: GroupRequestView,
    xy: Pair,
)
    requires
        role_of(inst) == Role::Bridge,
        request.operation is Create,
        group_outcome(inst, request, xy).1.disposition == GroupDisposition::Queued,
    ensures
        ({
            let (after, response) = group_outcome(inst, request, xy);
            let name = owned_name(request.group, request.name);
            let ids = group_lights(request.members)->Ok_0;
            &&& response.problem is None
            &&& response.members.len() == 0
            &&& response.calls.len() == 1
            &&& writes_zone(
                response.calls[0],
                "POST"@,
                "/clip/v2/resource/zone"@,
                key_set(inst.properties),
                name,
                Some(Json::Str("other"@)),
                ids,
            )
            &&& awaits(
                held(after.scratch, HUE_GROUP_PENDING@),
                "create"@,
                request.group,
                words_in(held(inst.scratch, HUE_BRIDGE_ID@))->0,
                ids,
                zone_token(request.group),
                name,
            )
            &&& inner(held(after.scratch, HUE_GROUP_PENDING@), "zone"@) is None
            &&& only_changes(inst, after, HUE_GROUP_PENDING@)
            &&& names_in(response.status) == set!["pending"@]
            &&& member(response.status, "pending"@) == Some(Json::Str("create"@))
        }),
{
    lemma_words();
    let doc = create_body(request);
    let ids = group_lights(request.members)->Ok_0;
    lemma_children(ids);
    let (after, response) = group_outcome(inst, request, xy);
    assert(names_in(doc) =~= set!["metadata"@, "children"@]);
    assert(names_in(response.status) =~= set!["pending"@]);
    assert(list_in(member(doc, "children"@)) == list_in(Some(children_json(ids))));
    assert(asks(
        response.calls[0],
        "POST"@,
        "/clip/v2/resource/zone"@,
        key_set(inst.properties),
        doc,
    ));
}

/// A zone is brought up to date exactly when no write is in progress, the record says that it was
/// made for the group on this very bridge, it still exists and carries its mark, the group has
/// lights, and the bridge is set up.
pub proof fn law_when_a_zone_is_brought_up_to_date(
    inst: InstanceView,
    request: GroupRequestView,
    xy: Pair,
)
    requires
        role_of(inst) == Role::Bridge,
        request.operation is Synchronize,
    ensures
        group_outcome(inst, request, xy).1.disposition == GroupDisposition::Queued <==> {
            let link = inner(held(inst.scratch, HUE_GROUP_LINKS@), decimal(request.group as nat));
            &&& held(inst.scratch, HUE_GROUP_PENDING@) is None
            &&& inner(link, "ownership"@) == Some(Json::Str("juno"@))
            &&& words_in(held(inst.scratch, HUE_BRIDGE_ID@)) matches Some(bridge)
            &&& inner(link, "bridge_id"@) == Some(Json::Str(bridge))
            &&& words_in(inner(link, "zone"@)) matches Some(id)
            &&& zone_known(inst, id) matches Some(zone)
            &&& words_in(inner(link, "token"@)) matches Some(token)
            &&& token.len() > 0
            &&& has_part(zone_title(zone), token)
            &&& group_lights(request.members) is Ok
            &&& words_in(held(inst.properties, "Bridge address"@)) matches Some(address)
            &&& address.len() > 0
        },
        group_outcome(inst, request, xy).1.disposition == GroupDisposition::Queued
            || group_outcome(inst, request, xy).1.disposition == GroupDisposition::Refused,
{
    reveal_strlit("");
}

/// Bringing a zone up to date writes the lights of the group as it is now, exactly, and its marked
/// name, to the zone of the record; and what was asked for is remembered until the bridge has
/// confirmed it.
pub proof fn law_a_zone_is_brought_to_the_lights_of_the_group(
    inst: InstanceView,
    request: GroupRequestView,
    xy: Pair,
)
    requires
        role_of(inst) == Role::Bridge,
        request.operation is Synchronize,
        group_outcome(inst, request, xy).1.disposition == GroupDisposition::Queued,
    ensures
        ({
            let (after, response) = group_outcome(inst, request, xy);
            let link = inner(held(inst.scratch, HUE_GROUP_LINKS@), decimal(request.group as nat));
            let id = words_in(inner(link, "zone"@))->0;
            let name = owned_name(request.group, request.name);
            let ids = group_lights(request.members)->Ok_0;
            &&& response.problem is None
            &&& response.members.len() == 0
            &&& response.calls.len() == 1
            &&& writes_zone(
                response.calls[0],
                "PUT"@,
                "/clip/v2/resource/zone/"@ + id,
                key_set(inst.properties),
                name,
                None,
                ids,
            )
            &&& awaits(
                held(after.scratch, HUE_GROUP_PENDING@),
                "synchronize"@,
                request.group,
                words_in(held(inst.scratch, HUE_BRIDGE_ID@))->0,
                ids,
                words_in(inner(link, "token"@))->0,
                name,
            )
            &&& inner(held(after.scratch, HUE_GROUP_PENDING@), "zone"@) == Some(Json::Str(id))
            &&& only_changes(inst, after, HUE_GROUP_PENDING@)
            &&& names_in(response.status) == set!["pending"@]
            &&& member(response.status, "pending"@) == Some(Json::Str("synchronize"@))
        }),
{
    lemma_words();
    reveal_strlit("");
    let doc = synchronize_body(request);
    let ids = group_lights(request.members)->Ok_0;
    lemma_children(ids);
    let link = inner(held(inst.scratch, HUE_GROUP_LINKS@), decimal(request.group as nat));
    let id = words_in(inner(link, "zone"@))->0;
    let (after, response) = group_outcome(inst, request, xy);
    assert(names_in(doc) =~= set!["metadata"@, "children"@]);
    assert(names_in(response.status) =~= set!["pending"@]);
    assert(list_in(member(doc, "children"@)) == list_in(Some(children_json(ids))));
    assert(asks(
        response.calls[0],
        "PUT"@,
        "/clip/v2/resource/zone/"@ + id,
        key_set(inst.properties),
        doc,
    ));
}

} // verus!
