//! What holds of groups and the zones of the bridge.
use vstd::prelude::*;

use crate::codec::written_json;
use crate::event::{created_zone, zone_answer};
use crate::group::{
    group_lights, lights_or_none, link_holds, member_ids, shown_link, status_json, GroupDisposition,
    GroupMemberView, GroupRequestView, OperationView,
};
use crate::group_command::{group_command, level_of, usable_service};
use crate::group_request::{
    borrowed_link, create_outcome, create_pending, create_problem, detach_outcome, group_outcome,
    link_outcome, link_problem, synchronize_problem,
};
use crate::host::{CallView, DeviceId, InstanceView};
use crate::json::{at, str_in, text_array, u64_in, Json};
use crate::light::{remembered, stated, tint_stated, Pair};
use crate::light_laws::law_power_is_only_power;
use crate::pending::{device_of, expected_lights, finished, mismatch, owned_record, zones_cached};
use crate::role::{role_of, Role};
use crate::text::{
    decimal, has_part, law_decimal_is_unique, lemma_hexadecimal_len, same_but_case, stands_at,
};
use crate::zone::{
    bridge_known, first, is_zone, link_of, link_token, links, owned_name, with_link, without_link,
    zone_known, zone_lights, zone_service, zone_title, zone_token, zones_known, HUE_BRIDGE_ID,
    HUE_GROUP_LINKS, HUE_GROUP_PENDING, HUE_GROUP_PROBLEM, HUE_ZONES,
};

verus! {

/// Each kind of memory has a place of its own.
proof fn lemma_places_differ()
    ensures
        HUE_BRIDGE_ID@ != HUE_ZONES@,
        HUE_BRIDGE_ID@ != HUE_GROUP_LINKS@,
        HUE_BRIDGE_ID@ != HUE_GROUP_PENDING@,
        HUE_BRIDGE_ID@ != HUE_GROUP_PROBLEM@,
        HUE_ZONES@ != HUE_GROUP_LINKS@,
        HUE_ZONES@ != HUE_GROUP_PENDING@,
        HUE_ZONES@ != HUE_GROUP_PROBLEM@,
        HUE_GROUP_LINKS@ != HUE_GROUP_PENDING@,
        HUE_GROUP_LINKS@ != HUE_GROUP_PROBLEM@,
        HUE_GROUP_PENDING@ != HUE_GROUP_PROBLEM@,
{
    reveal_strlit("hue_bridge_id");
    reveal_strlit("hue_zones");
    reveal_strlit("hue_group_links");
    reveal_strlit("hue_group_pending");
    reveal_strlit("hue_group_problem");
    assert(HUE_BRIDGE_ID@.len() == 13);
    assert(HUE_ZONES@.len() == 9);
    assert(HUE_GROUP_LINKS@.len() == 15);
    assert(HUE_GROUP_PENDING@.len() == 17);
    assert(HUE_GROUP_PROBLEM@.len() == 17);
    assert(HUE_GROUP_PENDING@[11] == 'e');
    assert(HUE_GROUP_PROBLEM@[11] == 'r');
}

/// A request that is refused sends nothing and changes nothing, and says why; no other request
/// names a problem.
pub proof fn law_a_refusal_does_nothing(inst: InstanceView, request: GroupRequestView, xy: Pair)
    ensures
        ({
            let (after, response) = group_outcome(inst, request, xy);
            &&& response.disposition == GroupDisposition::Refused ==> {
                &&& after == inst
                &&& response.calls.len() == 0
                &&& response.members.len() == 0
            }
            &&& response.disposition == GroupDisposition::Refused <==> response.problem is Some
        }),
{
}

/// Only the bridge answers for groups.
pub proof fn law_only_the_bridge_answers_for_groups(
    inst: InstanceView,
    request: GroupRequestView,
    xy: Pair,
)
    requires
        role_of(inst) != Role::Bridge,
    ensures
        group_outcome(inst, request, xy).1.disposition == GroupDisposition::Refused,
{
}

/// A request changes only what the bridge remembers, never what it is.
pub proof fn law_a_request_keeps_the_role(inst: InstanceView, request: GroupRequestView, xy: Pair)
    ensures
        group_outcome(inst, request, xy).0.properties == inst.properties,
        role_of(group_outcome(inst, request, xy).0) == role_of(inst),
{
}

/// Asking, linking and detaching send nothing; whatever else is sent is one call.
pub proof fn law_only_writes_and_commands_are_sent(
    inst: InstanceView,
    request: GroupRequestView,
    xy: Pair,
)
    ensures
        group_outcome(inst, request, xy).1.calls.len() <= 1,
        request.operation is Status || request.operation is Link || request.operation is Detach
            ==> group_outcome(inst, request, xy).1.calls.len() == 0,
{
}

/// A group is commanded as a whole exactly when it is linked to a zone of this very bridge that
/// has exactly its lights, and through the service that the link names.
pub proof fn law_a_group_is_commanded_only_through_its_exact_zone(
    inst: InstanceView,
    request: GroupRequestView,
    service: Seq<char>,
)
    ensures
        usable_service(inst, request) == Ok::<Seq<char>, Seq<char>>(service) <==> {
            &&& group_lights(request.members) is Ok
            &&& link_of(inst, request.group) matches Some(link) && {
                &&& bridge_known(inst) is Some
                &&& link.str_at("bridge_id"@) == bridge_known(inst)
                &&& link.str_at("grouped_light"@) == Some(service)
                &&& link.str_at("zone"@) matches Some(id) && {
                    &&& zone_known(inst, id) matches Some(zone) && {
                        &&& zone_lights(zone) == group_lights(request.members)->Ok_0
                        &&& zone_service(zone) == Some(service)
                    }
                }
            }
        },
{
}

/// A command that is carried out changes nothing that the bridge remembers, and sends one request
/// to the one service of the group's zone.
pub proof fn law_a_command_goes_to_the_service_of_the_zone(
    inst: InstanceView,
    request: GroupRequestView,
    xy: Pair,
)
    requires
        request.operation is Command,
        group_outcome(inst, request, xy).1.disposition == GroupDisposition::Handled,
    ensures
        ({
            let (after, response) = group_outcome(inst, request, xy);
            &&& after == inst
            &&& request.operation matches OperationView::Command { command, args }
            &&& group_command(request.members, command, args, xy) matches Ok((body, answers))
            &&& usable_service(inst, request) matches Ok(service)
            &&& response.members == answers
            &&& response.calls.len() == 1
            &&& response.calls[0] matches CallView::Http(call)
            &&& call.method == "PUT"@
            &&& call.url == "/clip/v2/resource/grouped_light/"@ + service
            &&& call.body == Some(written_json(body))
        }),
{
}

/// A zone that the group only borrows is never written.
pub proof fn law_a_borrowed_zone_is_never_written(
    inst: InstanceView,
    request: GroupRequestView,
    xy: Pair,
)
    requires
        request.operation is Synchronize,
        link_of(inst, request.group) matches Some(link) ==> !link.is_at("ownership"@, "juno"@),
    ensures
        group_outcome(inst, request, xy).1.disposition == GroupDisposition::Refused,
        group_outcome(inst, request, xy).1.calls.len() == 0,
        group_outcome(inst, request, xy).0 == inst,
{
}

/// A zone is rewritten only where the record says that it was made for the group on this very
/// bridge, and its name still carries the mark. The write goes to that zone and to no other.
pub proof fn law_only_an_owned_zone_is_rewritten(
    inst: InstanceView,
    request: GroupRequestView,
    xy: Pair,
)
    requires
        request.operation is Synchronize,
        group_outcome(inst, request, xy).1.disposition != GroupDisposition::Refused,
    ensures
        link_of(inst, request.group) matches Some(link) && {
            &&& link.is_at("ownership"@, "juno"@)
            &&& bridge_known(inst) is Some
            &&& link.str_at("bridge_id"@) == bridge_known(inst)
            &&& link_token(link).len() > 0
            &&& link.str_at("zone"@) matches Some(id) && {
                &&& zone_known(inst, id) matches Some(zone) && has_part(
                    zone_title(zone),
                    link_token(link),
                )
                &&& group_outcome(inst, request, xy).1.calls[0] matches CallView::Http(call)
                    && call.method == "PUT"@ && call.url == "/clip/v2/resource/zone/"@ + id
            }
        },
{
}

/// While one zone write is in progress, no other is begun.
pub proof fn law_one_zone_write_at_a_time(inst: InstanceView, request: GroupRequestView, xy: Pair)
    requires
        inst.scratch.contains_key(HUE_GROUP_PENDING@),
        request.operation is Create || request.operation is Synchronize,
    ensures
        group_outcome(inst, request, xy).1.disposition == GroupDisposition::Refused,
{
}

/// A link reads back as it was set, and the links of other groups stay as they were.
pub proof fn law_a_link_reads_back(
    inst: InstanceView,
    group: DeviceId,
    link: Json,
    other: DeviceId,
)
    ensures
        link_of(inst.with_scratch(with_link(inst.scratch, group, link)), group) == Some(link),
        other != group ==> link_of(
            inst.with_scratch(with_link(inst.scratch, group, link)),
            other,
        ) == link_of(inst, other),
{
    if decimal(group as nat) == decimal(other as nat) {
        law_decimal_is_unique(group as nat, other as nat);
    }
}

/// A link that is forgotten is gone, and the links of other groups stay as they were.
pub proof fn law_a_forgotten_link_is_gone(inst: InstanceView, group: DeviceId, other: DeviceId)
    ensures
        link_of(inst.with_scratch(without_link(inst.scratch, group)), group) is None,
        other != group ==> link_of(
            inst.with_scratch(without_link(inst.scratch, group)),
            other,
        ) == link_of(inst, other),
{
    if decimal(group as nat) == decimal(other as nat) {
        law_decimal_is_unique(group as nat, other as nat);
    }
}

/// Detaching is local: nothing is sent, the group's link is gone, the links of other groups, the
/// zones and any write in progress stay.
pub proof fn law_detaching_is_local(
    inst: InstanceView,
    request: GroupRequestView,
    other: DeviceId,
)
    ensures
        ({
            let (after, response) = detach_outcome(inst, request);
            &&& response.calls.len() == 0
            &&& link_of(after, request.group) is None
            &&& other != request.group ==> link_of(after, other) == link_of(inst, other)
            &&& zones_known(after) == zones_known(inst)
            &&& bridge_known(after) == bridge_known(inst)
            &&& at(after.scratch, HUE_GROUP_PENDING@) == at(inst.scratch, HUE_GROUP_PENDING@)
        }),
{
    lemma_places_differ();
    law_a_forgotten_link_is_gone(inst, request.group, other);
    let forgotten = inst.with_scratch(without_link(inst.scratch, request.group));
    let after = detach_outcome(inst, request).0;
    assert(links(after.scratch) == links(forgotten.scratch));
}

/// No request makes a zone the group's own: every link that says so was there before.
pub proof fn law_a_request_never_claims_a_zone(
    inst: InstanceView,
    request: GroupRequestView,
    xy: Pair,
    group: DeviceId,
)
    ensures
        ({
            let after = group_outcome(inst, request, xy).0;
            link_of(after, group) matches Some(link) && link.is_at("ownership"@, "juno"@)
                ==> link_of(inst, group) == link_of(after, group)
        }),
{
    lemma_places_differ();
    lemma_record_names();
    match request.operation {
        OperationView::Link { resource } if link_problem(inst, request, resource) is None => {
            let link = borrowed_link(inst, request, resource);
            let linked = inst.with_scratch(with_link(inst.scratch, request.group, link));
            law_a_link_reads_back(inst, request.group, link, group);
            let after = link_outcome(inst, request, resource).0;
            assert(links(after.scratch) == links(linked.scratch));
            reveal_strlit("external");
            reveal_strlit("juno");
            assert("external"@.len() != "juno"@.len());
            assert(link.str_at("ownership"@) == Some("external"@));
        },
        OperationView::Detach => {
            law_detaching_is_local(inst, request, group);
        },
        _ => {},
    }
}

/// The members of a record of a zone have names of their own.
proof fn lemma_record_names()
    ensures
        "ownership"@ != "bridge_id"@,
        "ownership"@ != "zone"@,
        "ownership"@ != "grouped_light"@,
        "ownership"@ != "light_ids"@,
        "ownership"@ != "token"@,
        "ownership"@ != "name"@,
        "bridge_id"@ != "zone"@,
        "bridge_id"@ != "grouped_light"@,
        "bridge_id"@ != "light_ids"@,
        "bridge_id"@ != "token"@,
        "bridge_id"@ != "name"@,
        "bridge_id"@ != "group"@,
        "bridge_id"@ != "operation"@,
        "zone"@ != "grouped_light"@,
        "zone"@ != "light_ids"@,
        "zone"@ != "token"@,
        "zone"@ != "name"@,
        "zone"@ != "group"@,
        "zone"@ != "operation"@,
        "grouped_light"@ != "light_ids"@,
        "grouped_light"@ != "token"@,
        "grouped_light"@ != "name"@,
        "light_ids"@ != "token"@,
        "light_ids"@ != "name"@,
        "light_ids"@ != "group"@,
        "light_ids"@ != "operation"@,
        "token"@ != "name"@,
        "token"@ != "group"@,
        "token"@ != "operation"@,
        "name"@ != "group"@,
        "name"@ != "operation"@,
        "group"@ != "operation"@,
{
    reveal_strlit("ownership");
    reveal_strlit("bridge_id");
    reveal_strlit("zone");
    reveal_strlit("grouped_light");
    reveal_strlit("light_ids");
    reveal_strlit("token");
    reveal_strlit("name");
    reveal_strlit("group");
    reveal_strlit("operation");
    assert("ownership"@[0] == 'o' && "ownership"@.len() == 9);
    assert("bridge_id"@[0] == 'b' && "bridge_id"@.len() == 9);
    assert("zone"@[0] == 'z' && "zone"@.len() == 4);
    assert("grouped_light"@.len() == 13);
    assert("light_ids"@[0] == 'l' && "light_ids"@.len() == 9);
    assert("token"@[0] == 't' && "token"@.len() == 5);
    assert("name"@[0] == 'n' && "name"@.len() == 4);
    assert("group"@[0] == 'g' && "group"@.len() == 5);
    assert("operation"@[0] == 'o' && "operation"@[1] == 'p' && "operation"@.len() == 9);
}

/// A zone with exactly the lights of a group can be borrowed: once it is linked, the group is
/// commanded through its service, and it is still never written.
pub proof fn law_a_linked_zone_is_commanded(
    inst: InstanceView,
    request: GroupRequestView,
    resource: Seq<char>,
    xy: Pair,
)
    requires
        link_problem(inst, request, resource) is None,
    ensures
        ({
            let (after, response) = link_outcome(inst, request, resource);
            let synchronize = GroupRequestView { operation: OperationView::Synchronize, ..request };
            &&& response.disposition == GroupDisposition::Handled
            &&& zone_known(inst, resource) matches Some(zone) && zone_service(zone) matches Some(
                service,
            ) && usable_service(after, request) == Ok::<Seq<char>, Seq<char>>(service)
            &&& group_outcome(after, synchronize, xy).1.disposition == GroupDisposition::Refused
            &&& group_outcome(after, synchronize, xy).1.calls.len() == 0
        }),
{
    lemma_places_differ();
    lemma_record_names();
    let link = borrowed_link(inst, request, resource);
    let after = link_outcome(inst, request, resource).0;
    let linked = inst.with_scratch(with_link(inst.scratch, request.group, link));
    law_a_link_reads_back(inst, request.group, link, request.group);
    assert(links(after.scratch) == links(linked.scratch));
    assert(zones_known(after) == zones_known(inst));
    assert(bridge_known(after) == bridge_known(inst));
    reveal_strlit("external");
    reveal_strlit("juno");
    assert("external"@.len() != "juno"@.len());
    assert(link.str_at("ownership"@) == Some("external"@));
    assert(link.str_at("bridge_id"@) == bridge_known(inst));
    assert(link.str_at("zone"@) == Some(resource));
}

/// A link through which a group can be commanded is shown as one that holds.
pub proof fn law_a_usable_link_is_shown_as_valid(inst: InstanceView, request: GroupRequestView)
    requires
        usable_service(inst, request) is Ok,
    ensures
        link_of(inst, request.group) matches Some(link) && {
            &&& link_holds(inst, link, lights_or_none(request.members))
            &&& status_json(inst, request).get("linked"@) == Some(shown_link(link, true))
        },
{
    reveal_strlit("bridge_ready");
    reveal_strlit("linked");
    reveal_strlit("zones");
    reveal_strlit("problem");
    assert("linked"@.len() != "zones"@.len());
    assert("linked"@.len() != "problem"@.len());
}

proof fn lemma_token_len(group: DeviceId)
    ensures
        zone_token(group).len() == 15,
{
    reveal_strlit("[Juno ");
    reveal_strlit("]");
    lemma_hexadecimal_len(group as nat, 8);
}

/// The name of a zone made for a group is at most 32 characters long and ends with its mark.
pub proof fn law_an_owned_name_fits_and_carries_its_mark(group: DeviceId, name: Seq<char>)
    ensures
        zone_token(group).len() == 15,
        owned_name(group, name).len() <= 32,
        stands_at(
            owned_name(group, name),
            zone_token(group),
            owned_name(group, name).len() - zone_token(group).len(),
        ),
        has_part(owned_name(group, name), zone_token(group)),
{
    lemma_token_len(group);
    reveal_strlit(" ");
    let full = owned_name(group, name);
    let token = zone_token(group);
    let i = full.len() - token.len();
    assert(full.subrange(i, i + token.len()) =~= token);
    assert(stands_at(full, token, i));
}

/// The lights of a group do not depend on the order of its members.
pub proof fn law_the_order_of_members_does_not_matter(
    a: Seq<GroupMemberView>,
    b: Seq<GroupMemberView>,
)
    requires
        group_lights(a) is Ok,
        group_lights(b) is Ok,
        member_ids(a).to_set() == member_ids(b).to_set(),
    ensures
        group_lights(a) == group_lights(b),
{
}

/// Every member of a group that is commanded answers, in its place.
pub proof fn law_every_member_answers(
    members: Seq<GroupMemberView>,
    cmd: Seq<char>,
    args: Map<Seq<char>, Json>,
    xy: Pair,
)
    ensures
        group_command(members, cmd, args, xy) matches Ok((body, answers)) ==> {
            &&& answers.len() == members.len()
            &&& forall|i: int|
                0 <= i < members.len() ==> (#[trigger] answers[i]).device == members[i].device
        },
{
}

/// A plain `on` of a group sends no brightness, and each light is said to come back at its own
/// level.
pub proof fn law_a_group_comes_back_light_by_light(
    members: Seq<GroupMemberView>,
    args: Map<Seq<char>, Json>,
    xy: Pair,
)
    ensures
        group_command(members, "on"@, args, xy) matches Ok((body, answers)) && {
            &&& body.get("dimming"@) is None
            &&& forall|i: int|
                0 <= i < members.len() ==> {
                    &&& 1 <= level_of(members[i]) <= 100
                    &&& (#[trigger] answers[i]).calls == stated(level_of(members[i]))
                    &&& answers[i].scratch == Some(
                        remembered(members[i].instance.scratch, level_of(members[i])),
                    )
                }
        },
{
    law_power_is_only_power(true, u64_in(at(args, "ramp_ms"@)));
    reveal_strlit("on");
    reveal_strlit("set_cct");
    reveal_strlit("set_color");
    assert("on"@.len() != "set_cct"@.len());
    assert("on"@.len() != "set_color"@.len());
    let answers = group_command(members, "on"@, args, xy)->Ok_0.1;
    assert forall|i: int| 0 <= i < members.len() implies {
        &&& 1 <= level_of(members[i]) <= 100
        &&& (#[trigger] answers[i]).calls == stated(level_of(members[i]))
        &&& answers[i].scratch == Some(
            remembered(members[i].instance.scratch, level_of(members[i])),
        )
    } by {
        assert(tint_stated(members[i].proxy, "on"@, args) =~= Seq::empty());
        assert(answers[i].calls =~= stated(level_of(members[i])));
    }
}

/// A zone write that the bridge rejects is over: the problem is noted, the write is no longer in
/// progress, and no link changes.
pub proof fn law_a_rejected_write_is_over(
    inst: InstanceView,
    method: Seq<char>,
    status: u64,
    body: Json,
    group: DeviceId,
)
    requires
        status >= 400,
    ensures
        zone_answer(inst, method, status, body, false) matches Some((after, effects)) && {
            &&& effects.len() == 0
            &&& !after.scratch.contains_key(HUE_GROUP_PENDING@)
            &&& str_in(at(after.scratch, HUE_GROUP_PROBLEM@)) is Some
            &&& link_of(after, group) == link_of(inst, group)
        },
{
    lemma_places_differ();
    let (after, _) = zone_answer(inst, method, status, body, false)->0;
    assert(links(after.scratch) == links(inst.scratch));
}

/// Reading the zones of the bridge links a group only where a write for that very group is in
/// progress, and the zone that was written came back with the lights and the mark that were asked
/// for and a service to command it by.
pub proof fn law_a_zone_is_owned_only_when_confirmed(inst: InstanceView, group: DeviceId)
    requires
        link_of(inst.with_scratch(finished(inst)), group) != link_of(inst, group),
    ensures
        at(inst.scratch, HUE_GROUP_PENDING@) matches Some(pending) && {
            &&& u64_in(pending.get("group"@)) matches Some(n) && device_of(n) == group
            &&& pending.str_at("zone"@) matches Some(id) && {
                &&& zone_known(inst, id) matches Some(zone) && {
                    &&& zone_lights(zone) == expected_lights(pending)
                    &&& zone_service(zone) is Some
                    &&& has_part(zone_title(zone), link_token(pending))
                }
            }
        },
{
    lemma_places_differ();
    let scratch = inst.scratch;
    let after = inst.with_scratch(finished(inst));
    if let Some(pending) = at(scratch, HUE_GROUP_PENDING@) {
        if let Some(id) = pending.str_at("zone"@) {
            match zone_known(inst, id) {
                None => {
                    assert(links(after.scratch) == links(scratch));
                },
                Some(zone) => {
                    if mismatch(pending, zone) is Some {
                        assert(links(after.scratch) == links(scratch));
                    } else {
                        match u64_in(pending.get("group"@)) {
                            None => {
                                assert(links(after.scratch) == links(scratch));
                            },
                            Some(n) => {
                                let link = owned_record(pending, id, zone);
                                let linked = inst.with_scratch(
                                    with_link(scratch, device_of(n), link),
                                );
                                assert(links(after.scratch) == links(linked.scratch));
                                law_a_link_reads_back(inst, device_of(n), link, group);
                            },
                        }
                    }
                },
            }
        }
    }
}

proof fn lemma_texts_listed(ids: Seq<Seq<char>>)
    ensures
        Seq::new(ids.len(), |i: int| Json::Str(ids[i])).filter_map(|j: Json| j.as_str()) == ids,
    decreases ids.len(),
{
    let f = |j: Json| j.as_str();
    let all = Seq::new(ids.len(), |i: int| Json::Str(ids[i]));
    if ids.len() == 0 {
        reveal_with_fuel(Seq::filter_map, 1);
        assert(all.filter_map(f) =~= ids);
    } else {
        let rest = ids.drop_last();
        lemma_texts_listed(rest);
        let n = ids.len() - 1;
        all.lemma_filter_map_take_succ(f, n);
        assert(all.take(n + 1) =~= all);
        assert(all.take(n) =~= Seq::new(rest.len(), |i: int| Json::Str(rest[i])));
        assert(all.filter_map(f) =~= rest.push(ids.last()));
        assert(rest.push(ids.last()) =~= ids);
    }
}

/// A zone is made for a group in three steps: the request, the bridge's word which zone it made,
/// and the sight of that zone with the lights and the mark that were asked for. After them the
/// zone is the group's own: it is commanded, and it can be brought up to date.
pub proof fn law_a_created_zone_becomes_the_groups_own(
    inst: InstanceView,
    request: GroupRequestView,
    status: u64,
    body: Json,
    id: Seq<char>,
    data: Seq<Json>,
    zone: Json,
)
    requires
        create_problem(inst, request) is None,
        status < 400,
        created_zone(body) == Some(id),
        first(data.filter(|r: Json| is_zone(r)), |z: Json| z.is_at("id"@, id)) == Some(zone),
        zone_lights(zone) == group_lights(request.members)->Ok_0,
        zone_service(zone) is Some,
        has_part(zone_title(zone), zone_token(request.group)),
    ensures
        ({
            let requested = create_outcome(inst, request).0;
            zone_answer(requested, "POST"@, status, body, false) matches Some((named, effects)) && {
                let confirmed = named.with_scratch(zones_cached(named, data));
                &&& link_of(confirmed, request.group) matches Some(link) && link.is_at(
                    "ownership"@,
                    "juno"@,
                ) && link.is_at("zone"@, id)
                &&& usable_service(confirmed, request) == Ok::<Seq<char>, Seq<char>>(
                    zone_service(zone)->0,
                )
                &&& synchronize_problem(confirmed, request) is None
            }
        }),
{
    lemma_places_differ();
    lemma_record_names();
    let requested = create_outcome(inst, request).0;
    let pending = create_pending(inst, request);
    let ids = group_lights(request.members)->Ok_0;
    assert(same_but_case("POST"@, "POST"@));
    let (named, _) = zone_answer(requested, "POST"@, status, body, false)->0;
    let written = Json::Object(pending->Object_0.insert("zone"@, Json::Str(id)));
    assert(named == requested.with_scratch(
        requested.scratch.insert(HUE_GROUP_PENDING@, written),
    ));
    let zones = data.filter(|r: Json| is_zone(r));
    let read = named.with_scratch(named.scratch.insert(HUE_ZONES@, Json::Array(zones)));
    assert(at(read.scratch, HUE_GROUP_PENDING@) == Some(written));
    assert(written.str_at("zone"@) == Some(id));
    assert(zones_known(read) == zones);
    assert(zone_known(read, id) == Some(zone));
    assert(written.items_at("light_ids"@) == pending.items_at("light_ids"@));
    assert(pending.items_at("light_ids"@) == text_array(ids)->Array_0);
    lemma_texts_listed(ids);
    assert(expected_lights(written) == ids);
    assert(link_token(written) == zone_token(request.group));
    assert(mismatch(written, zone) is None);
    assert(u64_in(written.get("group"@)) == Some(request.group as u64));
    assert(device_of(request.group as u64) == request.group);
    let link = owned_record(written, id, zone);
    let linked = read.with_scratch(with_link(read.scratch, request.group, link));
    law_a_link_reads_back(read, request.group, link, request.group);
    let confirmed = named.with_scratch(zones_cached(named, data));
    assert(links(confirmed.scratch) == links(linked.scratch));
    assert(link_of(confirmed, request.group) == Some(link));
    assert(zones_known(confirmed) == zones);
    assert(zone_known(confirmed, id) == Some(zone));
    assert(bridge_known(confirmed) == bridge_known(inst));
    assert(link.str_at("ownership"@) == Some("juno"@));
    assert(link.str_at("zone"@) == Some(id));
    assert(link.str_at("bridge_id"@) == bridge_known(inst));
    assert(link.str_at("grouped_light"@) == zone_service(zone));
    assert(link_token(link) == zone_token(request.group));
    lemma_token_len(request.group);
}

} // verus!
