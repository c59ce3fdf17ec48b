//! What links a group to a zone, and how that is told.
use vstd::prelude::*;

use crate::command_laws::is_known;
use crate::group::{
    group_lights, lights_or_none, status_json, zone_entry, GroupDisposition, GroupRequestView,
    OperationView,
};
use crate::group_command::group_command;
use crate::group_command_laws::law_a_group_refuses_what_it_does_not_know;
use crate::group_laws::law_an_owned_name_fits_and_carries_its_mark;
use crate::group_request::group_outcome;
use crate::host::{DeviceId, InstanceView};
use crate::json::Json;
use crate::law_terms::{
    asks, held, inner, is_reachable, key_set, list_in, member, names_in, words_in,
};
use crate::light::Pair;
use crate::role::{role_of, Role};
use crate::text::{decimal, has_part, hexadecimal, law_decimal_is_unique};
use crate::text_laws::{
    law_eight_digits_have_room_for_any_device, law_hexadecimal_digits_stand_for_the_number,
    number_value,
};
use crate::zone::{
    links, owned_name, zone_known, zone_lights, zone_service, zone_title, zone_token, zones_known,
    HUE_BRIDGE_ID, HUE_GROUP_LINKS, HUE_GROUP_PENDING, HUE_GROUP_PROBLEM, HUE_ZONES,
};
use crate::zone_laws::lists_texts;

verus! {

/// The words that laws tell apart are different.
proof fn lemma_words()
    ensures
        "ownership"@.len() == 9 && "ownership"@[0] == 'o',
        "juno"@.len() == 4 && "juno"@[0] == 'j',
        "external"@.len() == 8 && "external"@[0] == 'e',
        "bridge_id"@.len() == 9 && "bridge_id"@[0] == 'b',
        "zone"@.len() == 4 && "zone"@[0] == 'z',
        "light_ids"@.len() == 9 && "light_ids"@[0] == 'l',
        "token"@.len() == 5 && "token"@[0] == 't',
        "name"@.len() == 4 && "name"@[0] == 'n',
        "grouped_light"@.len() == 13 && "grouped_light"@[0] == 'g',
        "group"@.len() == 5 && "group"@[0] == 'g',
        "resource"@.len() == 8 && "resource"@[0] == 'r',
        "members"@.len() == 7 && "members"@[0] == 'm',
        "exact_match"@.len() == 11,
        "controllable"@.len() == 12 && "controllable"@[0] == 'c',
        "juno_owned"@.len() == 10,
        "bridge_ready"@.len() == 12 && "bridge_ready"@[0] == 'b',
        "linked"@.len() == 6,
        "zones"@.len() == 5 && "zones"@[0] == 'z',
        "problem"@.len() == 7 && "problem"@[0] == 'p',
        "valid"@.len() == 5 && "valid"@[0] == 'v',
        "hue_bridge_id"@.len() == 13 && "hue_bridge_id"@[0] == 'h',
        "hue_zones"@.len() == 9 && "hue_zones"@[0] == 'h',
        "hue_group_links"@.len() == 15,
        "hue_group_pending"@.len() == 17 && "hue_group_pending"@[11] == 'e',
        "hue_group_problem"@.len() == 17 && "hue_group_problem"@[11] == 'r',
{
    reveal_strlit("ownership");
    reveal_strlit("juno");
    reveal_strlit("external");
    reveal_strlit("bridge_id");
    reveal_strlit("zone");
    reveal_strlit("light_ids");
    reveal_strlit("token");
    reveal_strlit("name");
    reveal_strlit("grouped_light");
    reveal_strlit("group");
    reveal_strlit("resource");
    reveal_strlit("members");
    reveal_strlit("exact_match");
    reveal_strlit("controllable");
    reveal_strlit("juno_owned");
    reveal_strlit("bridge_ready");
    reveal_strlit("linked");
    reveal_strlit("zones");
    reveal_strlit("problem");
    reveal_strlit("valid");
    reveal_strlit("hue_bridge_id");
    reveal_strlit("hue_zones");
    reveal_strlit("hue_group_links");
    reveal_strlit("hue_group_pending");
    reveal_strlit("hue_group_problem");
}

/// The mark of a group is its number in eight hexadecimal digits, in brackets, behind the name of
/// the project.
pub proof fn law_the_mark_is_the_number_of_the_group(group: DeviceId)
    ensures
        zone_token(group).len() == 15,
        zone_token(group).take(6) == "[Juno "@,
        number_value(zone_token(group).subrange(6, 14), 16) == group,
        zone_token(group)[14] == ']',
{
    reveal_strlit("[Juno ");
    reveal_strlit("]");
    let digits = hexadecimal(group as nat, 8);
    law_hexadecimal_digits_stand_for_the_number(group as nat, 8);
    law_eight_digits_have_room_for_any_device(group);
    assert(zone_token(group).take(6) =~= "[Juno "@);
    assert(zone_token(group).subrange(6, 14) =~= digits);
}

/// No two groups have the same mark.
pub proof fn law_every_group_has_a_mark_of_its_own(group: DeviceId, other: DeviceId)
    requires
        zone_token(group) == zone_token(other),
    ensures
        group == other,
{
    law_the_mark_is_the_number_of_the_group(group);
    law_the_mark_is_the_number_of_the_group(other);
}

/// A marked name is the front of the group's name, as far as sixteen characters go, a blank, and
/// the mark.
pub proof fn law_a_marked_name_begins_with_the_name(group: DeviceId, name: Seq<char>)
    ensures
        name.len() <= 16 ==> owned_name(group, name) == name + " "@ + zone_token(group),
        name.len() > 16 ==> owned_name(group, name) == name.take(16) + " "@ + zone_token(group),
{
    law_an_owned_name_fits_and_carries_its_mark(group, name);
    reveal_strlit(" ");
}

/// Whether a device differs in two memories at most.
pub open spec fn keeps_all_but(
    before: InstanceView,
    after: InstanceView,
    a: Seq<char>,
    b: Seq<char>,
) -> bool {
    &&& after.device == before.device
    &&& after.properties == before.properties
    &&& forall|name: Seq<char>|
        name != a && name != b ==> #[trigger] held(after.scratch, name) == held(
            before.scratch,
            name,
        )
}

/// Whether the links of all other groups are the same.
pub open spec fn keeps_other_links(
    before: InstanceView,
    after: InstanceView,
    group: DeviceId,
) -> bool {
    forall|other: DeviceId|
        other != group ==> inner(
            held(after.scratch, HUE_GROUP_LINKS@),
            #[trigger] decimal(other as nat),
        ) == inner(held(before.scratch, HUE_GROUP_LINKS@), decimal(other as nat))
}

/// An existing zone is linked exactly when the group has lights, the bridge is known, and the zone
/// exists, has exactly those lights and can be commanded.
pub proof fn law_when_a_zone_is_linked(
    inst: InstanceView,
    request: GroupRequestView,
    resource: Seq<char>,
    xy: Pair,
)
    requires
        role_of(inst) == Role::Bridge,
        request.operation == (OperationView::Link { resource }),
    ensures
        group_outcome(inst, request, xy).1.disposition == GroupDisposition::Handled <==> {
            &&& group_lights(request.members) matches Ok(ids)
            &&& words_in(held(inst.scratch, HUE_BRIDGE_ID@)) is Some
            &&& zone_known(inst, resource) matches Some(zone)
            &&& zone_lights(zone) == ids
            &&& zone_service(zone) is Some
        },
        group_outcome(inst, request, xy).1.disposition == GroupDisposition::Handled
            || group_outcome(inst, request, xy).1.disposition == GroupDisposition::Refused,
{
}

/// A zone that is linked is remembered for the group as another's, with its bridge, its id, its
/// service, its lights and its name; the problem of an earlier write is forgotten, and nothing
/// else changes.
pub proof fn law_a_linked_zone_is_remembered(
    inst: InstanceView,
    request: GroupRequestView,
    resource: Seq<char>,
    xy: Pair,
)
    requires
        role_of(inst) == Role::Bridge,
        request.operation == (OperationView::Link { resource }),
        group_outcome(inst, request, xy).1.disposition == GroupDisposition::Handled,
    ensures
        ({
            let (after, response) = group_outcome(inst, request, xy);
            let link = inner(held(after.scratch, HUE_GROUP_LINKS@), decimal(request.group as nat));
            let zone = zone_known(inst, resource)->0;
            &&& response.calls.len() == 0
            &&& response.members.len() == 0
            &&& response.problem is None
            &&& response.status == status_json(after, request)
            &&& keeps_all_but(inst, after, HUE_GROUP_LINKS@, HUE_GROUP_PROBLEM@)
            &&& held(after.scratch, HUE_GROUP_PROBLEM@) is None
            &&& keeps_other_links(inst, after, request.group)
            &&& link matches Some(doc)
            &&& names_in(doc) == set![
                "ownership"@,
                "bridge_id"@,
                "zone"@,
                "grouped_light"@,
                "light_ids"@,
                "name"@,
            ]
            &&& member(doc, "ownership"@) == Some(Json::Str("external"@))
            &&& member(doc, "bridge_id"@) == held(inst.scratch, HUE_BRIDGE_ID@)
            &&& member(doc, "zone"@) == Some(Json::Str(resource))
            &&& words_in(member(doc, "grouped_light"@)) == zone_service(zone)
            &&& lists_texts(member(doc, "light_ids"@), group_lights(request.members)->Ok_0)
            &&& member(doc, "name"@) == Some(Json::Str(zone_title(zone)))
        }),
{
    lemma_words();
    let (after, _) = group_outcome(inst, request, xy);
    let link = inner(held(after.scratch, HUE_GROUP_LINKS@), decimal(request.group as nat));
    assert(names_in(link->0) =~= set![
        "ownership"@,
        "bridge_id"@,
        "zone"@,
        "grouped_light"@,
        "light_ids"@,
        "name"@,
    ]);
    assert forall|other: DeviceId| other != request.group implies inner(
        held(after.scratch, HUE_GROUP_LINKS@),
        #[trigger] decimal(other as nat),
    ) == inner(held(inst.scratch, HUE_GROUP_LINKS@), decimal(other as nat)) by {
        if decimal(request.group as nat) == decimal(other as nat) {
            law_decimal_is_unique(request.group as nat, other as nat);
        }
        assert(inner(held(inst.scratch, HUE_GROUP_LINKS@), decimal(other as nat)) == held(
            links(inst.scratch),
            decimal(other as nat),
        ));
    }
}

/// Detaching forgets the link of the group and the problem of an earlier write, and nothing else.
pub proof fn law_detaching_forgets_the_link(inst: InstanceView, request: GroupRequestView, xy: Pair)
    requires
        role_of(inst) == Role::Bridge,
        request.operation is Detach,
    ensures
        ({
            let (after, response) = group_outcome(inst, request, xy);
            &&& response.disposition == GroupDisposition::Handled
            &&& response.problem is None
            &&& response.calls.len() == 0
            &&& response.members.len() == 0
            &&& response.status == status_json(after, request)
            &&& inner(
                held(after.scratch, HUE_GROUP_LINKS@),
                decimal(request.group as nat),
            ) is None
            &&& keeps_other_links(inst, after, request.group)
            &&& keeps_all_but(inst, after, HUE_GROUP_LINKS@, HUE_GROUP_PROBLEM@)
            &&& held(after.scratch, HUE_GROUP_PROBLEM@) is None
        }),
{
    lemma_words();
    let (after, _) = group_outcome(inst, request, xy);
    assert forall|other: DeviceId| other != request.group implies inner(
        held(after.scratch, HUE_GROUP_LINKS@),
        #[trigger] decimal(other as nat),
    ) == inner(held(inst.scratch, HUE_GROUP_LINKS@), decimal(other as nat)) by {
        if decimal(request.group as nat) == decimal(other as nat) {
            law_decimal_is_unique(request.group as nat, other as nat);
        }
    }
}

/// Whether an entry of a status tells of a zone: its id and name, its lights, whether they are
/// exactly those of the group, whether it can be commanded, and whether the group's record says
/// that it was made for the group.
pub open spec fn tells_zone(
    entry: Json,
    zone: Json,
    wanted: Seq<Seq<char>>,
    link: Option<Json>,
) -> bool {
    &&& words_in(member(zone, "id"@)) is Some
    &&& names_in(entry) == set![
        "resource"@,
        "name"@,
        "members"@,
        "exact_match"@,
        "controllable"@,
        "juno_owned"@,
    ]
    &&& member(entry, "resource"@) == member(zone, "id"@)
    &&& member(entry, "name"@) == Some(Json::Str(zone_title(zone)))
    &&& lists_texts(member(entry, "members"@), zone_lights(zone))
    &&& member(entry, "exact_match"@) == Some(Json::Bool(zone_lights(zone) == wanted))
    &&& member(entry, "controllable"@) == Some(Json::Bool(zone_service(zone) is Some))
    &&& member(entry, "juno_owned"@) == Some(
        Json::Bool(
            inner(link, "ownership"@) == Some(Json::Str("juno"@)) && inner(link, "zone"@) == member(
                zone,
                "id"@,
            ),
        ),
    )
}

/// Whether a status tells of the link of the group: as it is remembered, but for the mark and the
/// lights, and with whether the zone is still there, on this bridge, with the lights of the group
/// and the service of the record.
pub open spec fn tells_link(
    inst: InstanceView,
    shown: Option<Json>,
    link: Option<Json>,
    wanted: Seq<Seq<char>>,
) -> bool {
    match link {
        None => shown == Some(Json::Null),
        Some(Json::Object(m)) => {
            &&& shown is Some
            &&& shown->0 is Object
            &&& inner(shown, "valid"@) == Some(
                Json::Bool(
                    {
                        &&& words_in(inner(link, "zone"@)) matches Some(id)
                        &&& zone_known(inst, id) matches Some(zone)
                        &&& zone_lights(zone) == wanted
                        &&& zone_service(zone) == words_in(inner(link, "grouped_light"@))
                        &&& words_in(held(inst.scratch, HUE_BRIDGE_ID@)) == words_in(
                            inner(link, "bridge_id"@),
                        )
                    },
                ),
            )
            &&& inner(shown, "token"@) is None
            &&& inner(shown, "light_ids"@) is None
            &&& forall|name: Seq<char>|
                name != "valid"@ && name != "token"@ && name != "light_ids"@ ==> inner(
                    shown,
                    name,
                ) == #[trigger] held(m, name)
        },
        Some(other) => shown == Some(other),
    }
}

proof fn lemma_told(zones: Seq<Json>, wanted: Seq<Seq<char>>, link: Option<Json>)
    ensures
        ({
            let told = zones.filter_map(|z: Json| zone_entry(z, wanted, link));
            &&& told.len() == zones.filter(|z: Json| words_in(member(z, "id"@)) is Some).len()
            &&& forall|j: int|
                0 <= j < told.len() ==> tells_zone(
                    #[trigger] told[j],
                    zones.filter(|z: Json| words_in(member(z, "id"@)) is Some)[j],
                    wanted,
                    link,
                )
        }),
    decreases zones.len(),
{
    lemma_words();
    let f = |z: Json| zone_entry(z, wanted, link);
    let p = |z: Json| words_in(member(z, "id"@)) is Some;
    let told = zones.filter_map(f);
    let named = zones.filter(p);
    if zones.len() == 0 {
        reveal_with_fuel(Seq::filter_map, 1);
        reveal_with_fuel(Seq::filter, 1);
    } else {
        let n = zones.len() - 1;
        let rest = zones.drop_last();
        lemma_told(rest, wanted, link);
        zones.lemma_filter_map_take_succ(f, n);
        assert(zones.take(n + 1) =~= zones);
        assert(zones.take(n) =~= rest);
        reveal_with_fuel(Seq::filter, 1);
        let last = zones.last();
        if p(last) {
            let entry = f(last)->0;
            assert(names_in(entry) =~= set![
                "resource"@,
                "name"@,
                "members"@,
                "exact_match"@,
                "controllable"@,
                "juno_owned"@,
            ]);
            assert(tells_zone(entry, last, wanted, link));
            assert(told =~= rest.filter_map(f).push(entry));
            assert(named =~= rest.filter(p).push(last));
            assert forall|j: int| 0 <= j < told.len() implies tells_zone(
                #[trigger] told[j],
                named[j],
                wanted,
                link,
            ) by {
                if j < told.len() - 1 {
                    assert(told[j] == rest.filter_map(f)[j]);
                    assert(named[j] == rest.filter(p)[j]);
                }
            }
        } else {
            assert(told =~= rest.filter_map(f));
            assert(named =~= rest.filter(p));
        }
    }
}

/// A status tells whether the bridge is known, the link of the group, each zone that has an id, in
/// their order, and the problem of the last write.
pub proof fn law_a_status_tells_of_every_zone(
    inst: InstanceView,
    request: GroupRequestView,
    xy: Pair,
    wanted: Seq<Seq<char>>,
)
    requires
        role_of(inst) == Role::Bridge,
        wanted == match group_lights(request.members) {
            Ok(ids) => ids,
            Err(_) => Seq::empty(),
        },
    ensures
        ({
            let status = status_json(inst, request);
            let link = inner(held(inst.scratch, HUE_GROUP_LINKS@), decimal(request.group as nat));
            let zones = list_in(held(inst.scratch, HUE_ZONES@)).filter(
                |z: Json| words_in(member(z, "id"@)) is Some,
            );
            let told = list_in(member(status, "zones"@));
            &&& request.operation is Status ==> {
                let (after, response) = group_outcome(inst, request, xy);
                &&& after == inst
                &&& response.disposition == GroupDisposition::Handled
                &&& response.problem is None
                &&& response.calls.len() == 0
                &&& response.members.len() == 0
                &&& response.status == status
            }
            &&& names_in(status) == set![
                "bridge_ready"@,
                "linked"@,
                "zones"@,
                "problem"@,
            ]
            &&& member(status, "bridge_ready"@) == Some(
                Json::Bool(words_in(held(inst.scratch, HUE_BRIDGE_ID@)) is Some),
            )
            &&& tells_link(inst, member(status, "linked"@), link, wanted)
            &&& told.len() == zones.len()
            &&& forall|j: int|
                0 <= j < told.len() ==> tells_zone(#[trigger] told[j], zones[j], wanted, link)
            &&& member(status, "problem"@) == match held(
                inst.scratch,
                HUE_GROUP_PROBLEM@,
            ) {
                Some(problem) => Some(problem),
                None => Some(Json::Null),
            }
        }),
{
    lemma_words();
    let status = status_json(inst, request);
    let link = inner(held(inst.scratch, HUE_GROUP_LINKS@), decimal(request.group as nat));
    assert(wanted == lights_or_none(request.members));
    lemma_told(zones_known(inst), wanted, link);
    assert(names_in(status) =~= set!["bridge_ready"@, "linked"@, "zones"@, "problem"@]);
}

/// Only the bridge answers for groups, and a refusal says so.
pub proof fn law_others_refuse_to_answer_for_groups(
    inst: InstanceView,
    request: GroupRequestView,
    xy: Pair,
)
    requires
        role_of(inst) != Role::Bridge,
    ensures
        group_outcome(inst, request, xy).1.problem == Some(
            "Hue grouped control must run on the bridge"@,
        ),
        group_outcome(inst, request, xy).1.status == Json::Null,
{
}

/// A refusal to link names the first thing that is missing, and comes with the status.
pub proof fn law_why_a_zone_is_not_linked(
    inst: InstanceView,
    request: GroupRequestView,
    resource: Seq<char>,
    xy: Pair,
)
    requires
        role_of(inst) == Role::Bridge,
        request.operation == (OperationView::Link { resource }),
        group_outcome(inst, request, xy).1.disposition == GroupDisposition::Refused,
    ensures
        ({
            let response = group_outcome(inst, request, xy).1;
            let lights = group_lights(request.members);
            let bridge = words_in(held(inst.scratch, HUE_BRIDGE_ID@));
            let zone = zone_known(inst, resource);
            &&& response.status == status_json(inst, request)
            &&& lights is Err ==> response.problem == Some(lights->Err_0)
            &&& lights is Ok && bridge is None ==> response.problem == Some(
                "the Hue bridge identity has not loaded yet"@,
            )
            &&& lights is Ok && bridge is Some && zone is None ==> response.problem == Some(
                "that Hue zone no longer exists"@,
            )
            &&& lights is Ok && bridge is Some && zone is Some && zone_lights(zone->0)
                != lights->Ok_0 ==> response.problem == Some(
                "an existing Hue zone can only be linked when its lights exactly match"@,
            )
            &&& lights is Ok && bridge is Some && zone is Some && zone_lights(zone->0)
                == lights->Ok_0 ==> response.problem == Some(
                "that Hue zone cannot control its lights as a group"@,
            )
        }),
{
}

/// A refusal to make a zone names the first thing that stands against it, and comes with the
/// status.
pub proof fn law_why_no_zone_is_made(inst: InstanceView, request: GroupRequestView, xy: Pair)
    requires
        role_of(inst) == Role::Bridge,
        request.operation is Create,
        group_outcome(inst, request, xy).1.disposition == GroupDisposition::Refused,
    ensures
        ({
            let response = group_outcome(inst, request, xy).1;
            let free = inner(
                held(inst.scratch, HUE_GROUP_LINKS@),
                decimal(request.group as nat),
            ) is None;
            let idle = held(inst.scratch, HUE_GROUP_PENDING@) is None;
            let lights = group_lights(request.members);
            let bridge = words_in(held(inst.scratch, HUE_BRIDGE_ID@));
            &&& response.status == status_json(inst, request)
            &&& !free ==> response.problem == Some(
                "detach the current Hue zone before creating another one"@,
            )
            &&& free && !idle ==> response.problem == Some(
                "another Hue zone write is still in progress"@,
            )
            &&& free && idle && lights is Err ==> response.problem == Some(lights->Err_0)
            &&& free && idle && lights is Ok && bridge is None ==> response.problem == Some(
                "the Hue bridge identity has not loaded yet"@,
            )
            &&& free && idle && lights is Ok && bridge is Some ==> response.problem == Some(
                "the Hue bridge connection is not configured"@,
            )
        }),
{
}

/// A refusal to bring a zone up to date names the first thing that stands against it, and comes
/// with the status.
pub proof fn law_why_a_zone_is_not_brought_up_to_date(
    inst: InstanceView,
    request: GroupRequestView,
    xy: Pair,
)
    requires
        role_of(inst) == Role::Bridge,
        request.operation is Synchronize,
        group_outcome(inst, request, xy).1.disposition == GroupDisposition::Refused,
    ensures
        ({
            let response = group_outcome(inst, request, xy).1;
            let idle = held(inst.scratch, HUE_GROUP_PENDING@) is None;
            let link = inner(held(inst.scratch, HUE_GROUP_LINKS@), decimal(request.group as nat));
            let own = link is Some && inner(link, "ownership"@) == Some(Json::Str("juno"@));
            let bridge = words_in(held(inst.scratch, HUE_BRIDGE_ID@));
            let here = bridge is Some && words_in(inner(link, "bridge_id"@)) == bridge;
            let id = words_in(inner(link, "zone"@));
            let zone = zone_known(inst, id->0);
            let token = words_in(inner(link, "token"@));
            let marked = token is Some && token->0.len() > 0 && has_part(
                zone_title(zone->0),
                token->0,
            );
            let found = idle && own && here && id is Some && zone is Some;
            let lights = group_lights(request.members);
            &&& response.status == status_json(inst, request)
            &&& !idle ==> response.problem == Some("another Hue zone write is still in progress"@)
            &&& idle && link is None ==> response.problem == Some(
                "this group has no linked Hue zone"@,
            )
            &&& idle && link is Some && !own ==> response.problem == Some(
                "existing Hue zones stay Hue-owned and cannot be reconfigured by Juno"@,
            )
            &&& idle && own && bridge is None ==> response.problem == Some(
                "the Hue bridge identity has not loaded yet"@,
            )
            &&& idle && own && bridge is Some && !here ==> response.problem == Some(
                "the saved zone belongs to a different Hue bridge"@,
            )
            &&& idle && own && here && id is None ==> response.problem == Some(
                "the saved Hue zone link is incomplete"@,
            )
            &&& idle && own && here && id is Some && zone is None ==> response.problem == Some(
                "the Juno-created Hue zone no longer exists"@,
            )
            &&& found && !marked ==> response.problem == Some(
                "the Juno ownership marker was removed; refusing to modify this zone"@,
            )
            &&& found && marked && lights is Err ==> response.problem == Some(lights->Err_0)
            &&& found && marked && lights is Ok ==> response.problem == Some(
                "the Hue bridge connection is not configured"@,
            )
        }),
{
    reveal_strlit("");
}

/// A group is commanded as a whole exactly when it has lights, it is linked to a zone of this very
/// bridge that has exactly those lights and is still commanded through the service of the record,
/// the command is known, and the bridge is set up. The one request then goes to that service.
pub proof fn law_when_a_group_is_commanded(
    inst: InstanceView,
    request: GroupRequestView,
    xy: Pair,
    command: Seq<char>,
    args: Map<Seq<char>, Json>,
)
    requires
        role_of(inst) == Role::Bridge,
        request.operation == (OperationView::Command { command, args }),
    ensures
        ({
            let (after, response) = group_outcome(inst, request, xy);
            let link = inner(held(inst.scratch, HUE_GROUP_LINKS@), decimal(request.group as nat));
            let service = words_in(inner(link, "grouped_light"@));
            let through = {
                &&& group_lights(request.members) matches Ok(ids)
                &&& words_in(held(inst.scratch, HUE_BRIDGE_ID@)) matches Some(bridge)
                &&& inner(link, "bridge_id"@) == Some(Json::Str(bridge))
                &&& words_in(inner(link, "zone"@)) matches Some(id)
                &&& zone_known(inst, id) matches Some(zone)
                &&& zone_lights(zone) == ids
                &&& service is Some
                &&& zone_service(zone) == service
            };
            let done = group_command(request.members, command, args, xy);
            &&& after == inst
            &&& response.disposition == GroupDisposition::Handled <==> through && is_known(command)
                && is_reachable(inst)
            &&& response.disposition == GroupDisposition::Handled
                || response.disposition == GroupDisposition::Refused
            &&& response.disposition == GroupDisposition::Handled ==> {
                &&& response.problem is None
                &&& response.calls.len() == 1
                &&& asks(
                    response.calls[0],
                    "PUT"@,
                    "/clip/v2/resource/grouped_light/"@ + service->0,
                    key_set(inst.properties),
                    done->Ok_0.0,
                )
                &&& response.members == done->Ok_0.1
            }
            &&& through && !is_known(command) ==> response.problem == Some(
                "Hue grouped control does not support `"@ + command + "`"@,
            )
            &&& through && is_known(command) && !is_reachable(inst) ==> response.problem == Some(
                "the Hue bridge connection is not configured"@,
            )
        }),
{
    law_a_group_refuses_what_it_does_not_know(request.members, command, args, xy);
}

/// A command that cannot go through the zone of the group is refused, and the first reason is
/// named: the lights of the group, its link, the bridge, the zone, its lights and its service.
pub proof fn law_why_a_group_is_not_commanded(
    inst: InstanceView,
    request: GroupRequestView,
    xy: Pair,
)
    requires
        role_of(inst) == Role::Bridge,
        request.operation is Command,
    ensures
        ({
            let response = group_outcome(inst, request, xy).1;
            let lights = group_lights(request.members);
            let link = inner(held(inst.scratch, HUE_GROUP_LINKS@), decimal(request.group as nat));
            let bridge = words_in(held(inst.scratch, HUE_BRIDGE_ID@));
            let known = lights is Ok && link is Some && bridge is Some;
            let here = words_in(inner(link, "bridge_id"@)) == bridge;
            let id = words_in(inner(link, "zone"@));
            let zone = zone_known(inst, id->0);
            let found = known && here && id is Some && zone is Some;
            let exact = zone_lights(zone->0) == lights->Ok_0;
            let service = zone_service(zone->0);
            &&& response.status == status_json(inst, request)
            &&& lights is Err ==> response.problem == Some(lights->Err_0)
            &&& lights is Ok && link is None ==> response.problem == Some(
                "this Juno group is not linked to a Hue zone"@,
            )
            &&& lights is Ok && link is Some && bridge is None ==> response.problem == Some(
                "the Hue bridge identity has not loaded yet"@,
            )
            &&& known && !here ==> response.problem == Some(
                "the saved zone belongs to a different Hue bridge"@,
            )
            &&& known && here && id is None ==> response.problem == Some(
                "the saved Hue zone link is incomplete"@,
            )
            &&& known && here && id is Some && zone is None ==> response.problem == Some(
                "the linked Hue zone no longer exists"@,
            )
            &&& found && !exact ==> response.problem == Some(
                "the linked Hue zone membership changed; using individual lights"@,
            )
            &&& found && exact && service is None ==> response.problem == Some(
                "the linked Hue zone has no grouped-light service"@,
            )
            &&& found && exact && service is Some && words_in(inner(link, "grouped_light"@))
                != service ==> response.problem == Some(
                "the linked Hue zone service changed; using individual lights"@,
            )
        }),
{
}

} // verus!
