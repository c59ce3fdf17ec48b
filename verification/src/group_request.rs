//! Requests about a group: borrowing a zone, making one, and commanding it.
use vstd::prelude::*;
use vstd::string::*;

use crate::group::{
    group_light_ids, group_lights, group_status, refusal, refused, status_json, GroupDisposition,
    GroupOperation, GroupRequest, GroupRequestView, GroupResponse, GroupResponseView,
    MemberCallsView, OperationView,
};
use crate::group_command::{group_command, grouped_command, usable_service, validated_grouped_light};
use crate::host::{CallView, HostCall, Instance, InstanceView};
use crate::json::{
    json_object1, json_text, json_texts, json_uint, object1, text_array, uint, Json, JsonValue,
    Record,
};
use crate::light::Pair;
use crate::order::same_texts;
use crate::role::{role_of, Role};
use crate::text::{contains, has_part};
use crate::views::group_views;
use crate::zone::{
    bridge_http, bridge_id, bridge_known, bridge_request, cached_zone, children_json, group_link,
    link_of, link_token, owned_name, owned_zone_name, remove_group_link, set_group_link, with_link,
    without_link, zone_children, zone_grouped_light, zone_known, zone_light_ids, zone_lights,
    zone_name, zone_service, zone_title, zone_token, HUE_GROUP_PENDING, HUE_GROUP_PROBLEM,
};
use crate::HueBulb;

verus! {

broadcast use group_views;

/// A request that was carried out or sent.
pub open spec fn done(
    disposition: GroupDisposition,
    status: Json,
    calls: Seq<CallView>,
    members: Seq<MemberCallsView>,
) -> GroupResponseView {
    GroupResponseView { disposition, problem: None, status, calls, members }
}

/// A request that is refused with the status of the group, and changes nothing.
pub open spec fn refuse(
    inst: InstanceView,
    request: GroupRequestView,
    problem: Seq<char>,
) -> (InstanceView, GroupResponseView) {
    (inst, refusal(problem, status_json(inst, request)))
}

/// Why a group cannot be linked to an existing zone.
pub open spec fn link_problem(
    inst: InstanceView,
    request: GroupRequestView,
    resource: Seq<char>,
) -> Option<Seq<char>> {
    match (group_lights(request.members), bridge_known(inst), zone_known(inst, resource)) {
        (Err(problem), _, _) => Some(problem),
        (Ok(_), None, _) => Some("the Hue bridge identity has not loaded yet"@),
        (Ok(_), Some(_), None) => Some("that Hue zone no longer exists"@),
        (Ok(desired), Some(_), Some(zone)) => if zone_lights(zone) != desired {
            Some("an existing Hue zone can only be linked when its lights exactly match"@)
        } else if zone_service(zone) is None {
            Some("that Hue zone cannot control its lights as a group"@)
        } else {
            None
        },
    }
}

/// The record of a zone that the group borrows.
pub open spec fn borrowed_link(
    inst: InstanceView,
    request: GroupRequestView,
    resource: Seq<char>,
) -> Json {
    let zone = zone_known(inst, resource)->0;
    Json::Object(
        Map::empty().insert("ownership"@, Json::Str("external"@)).insert(
            "bridge_id"@,
            Json::Str(bridge_known(inst)->0),
        ).insert("zone"@, Json::Str(resource)).insert(
            "grouped_light"@,
            Json::Str(zone_service(zone)->0),
        ).insert("light_ids"@, text_array(group_lights(request.members)->Ok_0)).insert(
            "name"@,
            Json::Str(zone_title(zone)),
        ),
    )
}

/// Linking a group to an existing zone, which stays as it is.
pub open spec fn link_outcome(
    inst: InstanceView,
    request: GroupRequestView,
    resource: Seq<char>,
) -> (InstanceView, GroupResponseView) {
    match link_problem(inst, request, resource) {
        Some(problem) => refuse(inst, request, problem),
        None => {
            let after = inst.with_scratch(
                with_link(
                    inst.scratch,
                    request.group,
                    borrowed_link(inst, request, resource),
                ).remove(HUE_GROUP_PROBLEM@),
            );
            (
                after,
                done(
                    GroupDisposition::Handled,
                    status_json(after, request),
                    Seq::empty(),
                    Seq::empty(),
                ),
            )
        },
    }
}

/// Why no zone can be made for a group.
pub open spec fn create_problem(inst: InstanceView, request: GroupRequestView) -> Option<
    Seq<char>,
> {
    if link_of(inst, request.group) is Some {
        Some("detach the current Hue zone before creating another one"@)
    } else if inst.scratch.contains_key(HUE_GROUP_PENDING@) {
        Some("another Hue zone write is still in progress"@)
    } else if group_lights(request.members) is Err {
        Some(group_lights(request.members)->Err_0)
    } else if bridge_known(inst) is None {
        Some("the Hue bridge identity has not loaded yet"@)
    } else if !inst.has("Bridge address"@) {
        Some("the Hue bridge connection is not configured"@)
    } else {
        None
    }
}

/// The body that makes a zone for a group.
pub open spec fn create_body(request: GroupRequestView) -> Json {
    Json::Object(
        Map::empty().insert(
            "metadata"@,
            Json::Object(
                Map::empty().insert(
                    "name"@,
                    Json::Str(owned_name(request.group, request.name)),
                ).insert("archetype"@, Json::Str("other"@)),
            ),
        ).insert("children"@, children_json(group_lights(request.members)->Ok_0)),
    )
}

/// What is remembered of a zone that is being made.
pub open spec fn create_pending(inst: InstanceView, request: GroupRequestView) -> Json {
    Json::Object(
        Map::empty().insert("operation"@, Json::Str("create"@)).insert(
            "group"@,
            uint(request.group as u64),
        ).insert("bridge_id"@, Json::Str(bridge_known(inst)->0)).insert(
            "light_ids"@,
            text_array(group_lights(request.members)->Ok_0),
        ).insert("token"@, Json::Str(zone_token(request.group))).insert(
            "name"@,
            Json::Str(owned_name(request.group, request.name)),
        ),
    )
}

/// Making a zone for a group. It is the group's own only once the bridge has confirmed it.
pub open spec fn create_outcome(
    inst: InstanceView,
    request: GroupRequestView,
) -> (InstanceView, GroupResponseView) {
    match create_problem(inst, request) {
        Some(problem) => refuse(inst, request, problem),
        None => (
            inst.with_scratch(
                inst.scratch.insert(HUE_GROUP_PENDING@, create_pending(inst, request)),
            ),
            done(
                GroupDisposition::Queued,
                object1("pending"@, Json::Str("create"@)),
                seq![
                    bridge_request(
                        inst,
                        "POST"@,
                        "/clip/v2/resource/zone"@,
                        Some(create_body(request)),
                    )->0,
                ],
                Seq::empty(),
            ),
        ),
    }
}

/// Why the zone of a group cannot be brought up to date.
pub open spec fn synchronize_problem(inst: InstanceView, request: GroupRequestView) -> Option<
    Seq<char>,
> {
    if inst.scratch.contains_key(HUE_GROUP_PENDING@) {
        Some("another Hue zone write is still in progress"@)
    } else {
        match link_of(inst, request.group) {
            None => Some("this group has no linked Hue zone"@),
            Some(link) => if !link.is_at("ownership"@, "juno"@) {
                Some("existing Hue zones stay Hue-owned and cannot be reconfigured by Juno"@)
            } else if bridge_known(inst) is None {
                Some("the Hue bridge identity has not loaded yet"@)
            } else if link.str_at("bridge_id"@) != bridge_known(inst) {
                Some("the saved zone belongs to a different Hue bridge"@)
            } else {
                match link.str_at("zone"@) {
                    None => Some("the saved Hue zone link is incomplete"@),
                    Some(id) => match zone_known(inst, id) {
                        None => Some("the Juno-created Hue zone no longer exists"@),
                        Some(zone) => if link_token(link).len() == 0 || !has_part(
                            zone_title(zone),
                            link_token(link),
                        ) {
                            Some(
                                "the Juno ownership marker was removed; refusing to modify this zone"@,
                            )
                        } else if group_lights(request.members) is Err {
                            Some(group_lights(request.members)->Err_0)
                        } else if !inst.has("Bridge address"@) {
                            Some("the Hue bridge connection is not configured"@)
                        } else {
                            None
                        },
                    },
                }
            },
        }
    }
}

/// The body that brings the zone of a group up to date.
pub open spec fn synchronize_body(request: GroupRequestView) -> Json {
    Json::Object(
        Map::empty().insert(
            "metadata"@,
            object1("name"@, Json::Str(owned_name(request.group, request.name))),
        ).insert("children"@, children_json(group_lights(request.members)->Ok_0)),
    )
}

/// What is remembered of a zone that is being brought up to date.
pub open spec fn synchronize_pending(inst: InstanceView, request: GroupRequestView) -> Json {
    let link = link_of(inst, request.group)->0;
    Json::Object(
        Map::empty().insert("operation"@, Json::Str("synchronize"@)).insert(
            "group"@,
            uint(request.group as u64),
        ).insert("bridge_id"@, Json::Str(bridge_known(inst)->0)).insert(
            "zone"@,
            Json::Str(link.str_at("zone"@)->0),
        ).insert("light_ids"@, text_array(group_lights(request.members)->Ok_0)).insert(
            "token"@,
            Json::Str(link_token(link)),
        ).insert("name"@, Json::Str(owned_name(request.group, request.name))),
    )
}

/// Bringing the zone that was made for a group up to date.
pub open spec fn synchronize_outcome(
    inst: InstanceView,
    request: GroupRequestView,
) -> (InstanceView, GroupResponseView) {
    match synchronize_problem(inst, request) {
        Some(problem) => refuse(inst, request, problem),
        None => (
            inst.with_scratch(
                inst.scratch.insert(HUE_GROUP_PENDING@, synchronize_pending(inst, request)),
            ),
            done(
                GroupDisposition::Queued,
                object1("pending"@, Json::Str("synchronize"@)),
                seq![
                    bridge_request(
                        inst,
                        "PUT"@,
                        "/clip/v2/resource/zone/"@ + link_of(inst, request.group)->0.str_at(
                            "zone"@,
                        )->0,
                        Some(synchronize_body(request)),
                    )->0,
                ],
                Seq::empty(),
            ),
        ),
    }
}

/// Forgetting the zone of a group. This is deliberately local: the zone stays on the bridge.
pub open spec fn detach_outcome(
    inst: InstanceView,
    request: GroupRequestView,
) -> (InstanceView, GroupResponseView) {
    let after = inst.with_scratch(
        without_link(inst.scratch, request.group).remove(HUE_GROUP_PROBLEM@),
    );
    (
        after,
        done(
            GroupDisposition::Handled,
            status_json(after, request),
            Seq::empty(),
            Seq::empty(),
        ),
    )
}

/// Commanding all the lights of a group through the one service of its zone.
pub open spec fn command_outcome(
    inst: InstanceView,
    request: GroupRequestView,
    command: Seq<char>,
    args: Map<Seq<char>, Json>,
    xy: Pair,
) -> (InstanceView, GroupResponseView) {
    match (usable_service(inst, request), group_command(request.members, command, args, xy)) {
        (Err(problem), _) => refuse(inst, request, problem),
        (Ok(_), Err(problem)) => refuse(inst, request, problem),
        (Ok(service), Ok((body, members))) => match bridge_request(
            inst,
            "PUT"@,
            "/clip/v2/resource/grouped_light/"@ + service,
            Some(body),
        ) {
            None => refuse(inst, request, "the Hue bridge connection is not configured"@),
            Some(call) => (
                inst,
                done(
                    GroupDisposition::Handled,
                    status_json(inst, request),
                    seq![call],
                    members,
                ),
            ),
        },
    }
}

/// What becomes of a request about a group.
pub open spec fn group_outcome(
    inst: InstanceView,
    request: GroupRequestView,
    xy: Pair,
) -> (InstanceView, GroupResponseView) {
    if role_of(inst) != Role::Bridge {
        (inst, refusal("Hue grouped control must run on the bridge"@, Json::Null))
    } else {
        match request.operation {
            OperationView::Status => (
                inst,
                done(
                    GroupDisposition::Handled,
                    status_json(inst, request),
                    Seq::empty(),
                    Seq::empty(),
                ),
            ),
            OperationView::Link { resource } => link_outcome(inst, request, resource),
            OperationView::Create => create_outcome(inst, request),
            OperationView::Synchronize => synchronize_outcome(inst, request),
            OperationView::Detach => detach_outcome(inst, request),
            OperationView::Command { command, args } => command_outcome(
                inst,
                request,
                command,
                args,
                xy,
            ),
        }
    }
}

fn handled(status: JsonValue) -> (r: GroupResponse)
    ensures
        r@ == done(GroupDisposition::Handled, status@, Seq::empty(), Seq::empty()),
{
    GroupResponse {
        disposition: GroupDisposition::Handled,
        problem: None,
        status,
        calls: Vec::new(),
        members: Vec::new(),
    }
}

fn queued(pending: &str, call: HostCall) -> (r: GroupResponse)
    ensures
        r@ == done(
            GroupDisposition::Queued,
            object1("pending"@, Json::Str(pending@)),
            seq![call@],
            Seq::empty(),
        ),
{
    let mut calls: Vec<HostCall> = Vec::new();
    calls.push(call);
    GroupResponse {
        disposition: GroupDisposition::Queued,
        problem: None,
        status: json_object1("pending", json_text(pending)),
        calls,
        members: Vec::new(),
    }
}

fn link_zone(inst: &mut Instance, request: &GroupRequest, resource: &str) -> (r: GroupResponse)
    ensures
        (final(inst)@, r@) == link_outcome(old(inst)@, request@, resource@),
{
    let desired = match group_light_ids(request) {
        Ok(ids) => ids,
        Err(problem) => return refused(problem.as_str(), group_status(inst, request)),
    };
    let current = match bridge_id(inst) {
        Some(id) => id,
        None => {
            return refused(
                "the Hue bridge identity has not loaded yet",
                group_status(inst, request),
            );
        },
    };
    let zone = match cached_zone(inst, resource) {
        Some(zone) => zone,
        None => return refused("that Hue zone no longer exists", group_status(inst, request)),
    };
    if !same_texts(&zone_light_ids(zone), &desired) {
        return refused(
            "an existing Hue zone can only be linked when its lights exactly match",
            group_status(inst, request),
        );
    }
    let service = match zone_grouped_light(zone) {
        Some(service) => service,
        None => {
            return refused(
                "that Hue zone cannot control its lights as a group",
                group_status(inst, request),
            );
        },
    };
    let link = Record::new().with("ownership", json_text("external")).with(
        "bridge_id",
        json_text(current),
    ).with("zone", json_text(resource)).with("grouped_light", json_text(service)).with(
        "light_ids",
        json_texts(&desired),
    ).with("name", json_text(zone_name(zone)));
    set_group_link(inst, request.group, JsonValue::Object(link));
    inst.scratch.remove(HUE_GROUP_PROBLEM);
    handled(group_status(inst, request))
}

fn create_zone(inst: &mut Instance, request: &GroupRequest) -> (r: GroupResponse)
    ensures
        (final(inst)@, r@) == create_outcome(old(inst)@, request@),
{
    if group_link(inst, request.group).is_some() {
        return refused(
            "detach the current Hue zone before creating another one",
            group_status(inst, request),
        );
    }
    if inst.scratch.contains_key(HUE_GROUP_PENDING) {
        return refused(
            "another Hue zone write is still in progress",
            group_status(inst, request),
        );
    }
    let light_ids = match group_light_ids(request) {
        Ok(ids) => ids,
        Err(problem) => return refused(problem.as_str(), group_status(inst, request)),
    };
    let current = match bridge_id(inst) {
        Some(id) => id,
        None => {
            return refused(
                "the Hue bridge identity has not loaded yet",
                group_status(inst, request),
            );
        },
    };
    let (name, token) = owned_zone_name(request.group, request.name.as_str());
    let metadata = Record::new().with("name", json_text(name.as_str())).with(
        "archetype",
        json_text("other"),
    );
    let body = Record::new().with("metadata", JsonValue::Object(metadata)).with(
        "children",
        zone_children(&light_ids),
    );
    let call = match bridge_http(
        inst,
        "POST",
        "/clip/v2/resource/zone",
        Some(JsonValue::Object(body)),
    ) {
        Some(call) => call,
        None => {
            return refused(
                "the Hue bridge connection is not configured",
                group_status(inst, request),
            );
        },
    };
    let pending = Record::new().with("operation", json_text("create")).with(
        "group",
        json_uint(request.group as u64),
    ).with("bridge_id", json_text(current)).with("light_ids", json_texts(&light_ids)).with(
        "token",
        json_text(token.as_str()),
    ).with("name", json_text(name.as_str()));
    inst.scratch.insert(HUE_GROUP_PENDING, JsonValue::Object(pending));
    queued("create", call)
}

fn synchronize_zone(inst: &mut Instance, request: &GroupRequest) -> (r: GroupResponse)
    ensures
        (final(inst)@, r@) == synchronize_outcome(old(inst)@, request@),
{
    if inst.scratch.contains_key(HUE_GROUP_PENDING) {
        return refused(
            "another Hue zone write is still in progress",
            group_status(inst, request),
        );
    }
    let link = match group_link(inst, request.group) {
        Some(link) => link,
        None => return refused("this group has no linked Hue zone", group_status(inst, request)),
    };
    if !link.is_at("ownership", "juno") {
        return refused(
            "existing Hue zones stay Hue-owned and cannot be reconfigured by Juno",
            group_status(inst, request),
        );
    }
    let current = match bridge_id(inst) {
        Some(id) => id,
        None => {
            return refused(
                "the Hue bridge identity has not loaded yet",
                group_status(inst, request),
            );
        },
    };
    if !link.is_at("bridge_id", current) {
        return refused(
            "the saved zone belongs to a different Hue bridge",
            group_status(inst, request),
        );
    }
    let zone_id = match link.str_at("zone") {
        Some(id) => id,
        None => {
            return refused(
                "the saved Hue zone link is incomplete",
                group_status(inst, request),
            );
        },
    };
    let zone = match cached_zone(inst, zone_id) {
        Some(zone) => zone,
        None => {
            return refused(
                "the Juno-created Hue zone no longer exists",
                group_status(inst, request),
            );
        },
    };
    let token = match link.str_at("token") {
        Some(token) => token,
        None => "",
    };
    if token.is_empty() || !contains(zone_name(zone), token) {
        return refused(
            "the Juno ownership marker was removed; refusing to modify this zone",
            group_status(inst, request),
        );
    }
    let light_ids = match group_light_ids(request) {
        Ok(ids) => ids,
        Err(problem) => return refused(problem.as_str(), group_status(inst, request)),
    };
    let (name, _) = owned_zone_name(request.group, request.name.as_str());
    let body = Record::new().with(
        "metadata",
        json_object1("name", json_text(name.as_str())),
    ).with("children", zone_children(&light_ids));
    let path = "/clip/v2/resource/zone/".to_owned().concat(zone_id);
    let call = match bridge_http(inst, "PUT", path.as_str(), Some(JsonValue::Object(body))) {
        Some(call) => call,
        None => {
            return refused(
                "the Hue bridge connection is not configured",
                group_status(inst, request),
            );
        },
    };
    let pending = Record::new().with("operation", json_text("synchronize")).with(
        "group",
        json_uint(request.group as u64),
    ).with("bridge_id", json_text(current)).with("zone", json_text(zone_id)).with(
        "light_ids",
        json_texts(&light_ids),
    ).with("token", json_text(token)).with("name", json_text(name.as_str()));
    inst.scratch.insert(HUE_GROUP_PENDING, JsonValue::Object(pending));
    queued("synchronize", call)
}

fn detach_zone(inst: &mut Instance, request: &GroupRequest) -> (r: GroupResponse)
    ensures
        (final(inst)@, r@) == detach_outcome(old(inst)@, request@),
{
    remove_group_link(inst, request.group);
    inst.scratch.remove(HUE_GROUP_PROBLEM);
    handled(group_status(inst, request))
}

fn command_zone(
    inst: &Instance,
    request: &GroupRequest,
    command: &str,
    args: &Record,
    xy: Pair,
) -> (r: GroupResponse)
    ensures
        (inst@, r@) == command_outcome(inst@, request@, command@, args@, xy),
{
    let service = match validated_grouped_light(inst, request) {
        Ok(id) => id,
        Err(problem) => return refused(problem.as_str(), group_status(inst, request)),
    };
    let (body, members) = match grouped_command(request, command, args, xy) {
        Ok(plan) => plan,
        Err(problem) => return refused(problem.as_str(), group_status(inst, request)),
    };
    let path = "/clip/v2/resource/grouped_light/".to_owned().concat(service.as_str());
    let call = match bridge_http(inst, "PUT", path.as_str(), Some(body)) {
        Some(call) => call,
        None => {
            return refused(
                "the Hue bridge connection is not configured",
                group_status(inst, request),
            );
        },
    };
    let mut calls: Vec<HostCall> = Vec::new();
    calls.push(call);
    GroupResponse {
        disposition: GroupDisposition::Handled,
        problem: None,
        status: group_status(inst, request),
        calls,
        members,
    }
}

impl HueBulb {
    /// One request about a group, which only the bridge answers. `xy` is the point of the CIE
    /// diagram for the hue and saturation that a color command asks for.
    pub fn on_group(&self, inst: &mut Instance, request: &GroupRequest, xy: Pair) -> (r:
        GroupResponse)
        ensures
            (final(inst)@, r@) == group_outcome(old(inst)@, request@, xy),
    {
        if Role::of(inst) != Role::Bridge {
            return refused("Hue grouped control must run on the bridge", JsonValue::Null);
        }
        match &request.operation {
            GroupOperation::Status => handled(group_status(inst, request)),
            GroupOperation::Link { resource } => link_zone(inst, request, resource.as_str()),
            GroupOperation::Create => create_zone(inst, request),
            GroupOperation::Synchronize => synchronize_zone(inst, request),
            GroupOperation::Detach => detach_zone(inst, request),
            GroupOperation::Command { command, args } => command_zone(
                inst,
                request,
                command.as_str(),
                args,
                xy,
            ),
        }
    }
}

} // verus!
