//! A group of lights, commanded through a zone of the bridge.
use vstd::prelude::*;
use vstd::string::*;

use crate::host::{CallView, DeviceId, HostCall, Instance, InstanceView, LocalId};
use crate::json::{
    at, json_text, json_texts, jsons, listed, or_null, or_null_of, text_array, Json, JsonValue,
    Record,
};
use crate::order::{lemma_sorted_len, same_texts, sorted, sorted_set, texts};
use crate::text::{contains, decimal, decimal_text, same, text_of};
use crate::views::{group_views, seen, views};
use crate::zone::{
    bridge_id, bridge_known, cached_zone, cached_zones, group_link, link_of, zone_grouped_light,
    zone_known, zone_light_ids, zone_lights, zone_name, zone_service, zone_title, zones_known,
    HUE_GROUP_PROBLEM,
};

verus! {

broadcast use group_views;

/// One light of a group.
#[derive(Clone, Debug)]
pub struct GroupMember {
    pub device: DeviceId,
    pub proxy: LocalId,
    pub instance: Instance,
    pub state: Record,
}

#[verifier::ext_equal]
pub ghost struct GroupMemberView {
    pub device: DeviceId,
    pub proxy: LocalId,
    pub instance: InstanceView,
    pub state: Map<Seq<char>, Json>,
}

impl View for GroupMember {
    type V = GroupMemberView;

    open spec fn view(&self) -> GroupMemberView {
        GroupMemberView {
            device: self.device,
            proxy: self.proxy,
            instance: self.instance@,
            state: self.state@,
        }
    }
}

/// What is asked of a group.
#[derive(Clone, Debug)]
pub enum GroupOperation {
    /// Say how the group stands.
    Status,
    /// Use an existing zone for the group.
    Link { resource: String },
    /// Make a zone for the group.
    Create,
    /// Bring the group's own zone up to date.
    Synchronize,
    /// Forget the zone.
    Detach,
    /// Command all the lights at once.
    Command { command: String, args: Record },
}

#[verifier::ext_equal]
pub ghost enum OperationView {
    Status,
    Link { resource: Seq<char> },
    Create,
    Synchronize,
    Detach,
    Command { command: Seq<char>, args: Map<Seq<char>, Json> },
}

impl View for GroupOperation {
    type V = OperationView;

    open spec fn view(&self) -> OperationView {
        match self {
            GroupOperation::Status => OperationView::Status,
            GroupOperation::Link { resource } => OperationView::Link { resource: resource@ },
            GroupOperation::Create => OperationView::Create,
            GroupOperation::Synchronize => OperationView::Synchronize,
            GroupOperation::Detach => OperationView::Detach,
            GroupOperation::Command { command, args } => OperationView::Command {
                command: command@,
                args: args@,
            },
        }
    }
}

/// A request about a group.
#[derive(Clone, Debug)]
pub struct GroupRequest {
    pub group: DeviceId,
    pub name: String,
    pub state: Record,
    pub members: Vec<GroupMember>,
    pub operation: GroupOperation,
}

#[verifier::ext_equal]
pub ghost struct GroupRequestView {
    pub group: DeviceId,
    pub name: Seq<char>,
    pub state: Map<Seq<char>, Json>,
    pub members: Seq<GroupMemberView>,
    pub operation: OperationView,
}

impl View for GroupRequest {
    type V = GroupRequestView;

    open spec fn view(&self) -> GroupRequestView {
        GroupRequestView {
            group: self.group,
            name: self.name@,
            state: self.state@,
            members: views(self.members@),
            operation: self.operation@,
        }
    }
}

/// What became of a request.
#[derive(Clone, Copy, Debug, PartialEq, Eq, Structural)]
pub enum GroupDisposition {
    /// It is done.
    Handled,
    /// It has been sent, and the bridge is still to answer.
    Queued,
    /// Nothing was done.
    Refused,
}

/// What one light of a group says and remembers after a command.
#[derive(Clone, Debug)]
pub struct GroupMemberCalls {
    pub device: DeviceId,
    pub calls: Vec<HostCall>,
    pub scratch: Option<Record>,
}

#[verifier::ext_equal]
pub ghost struct MemberCallsView {
    pub device: DeviceId,
    pub calls: Seq<CallView>,
    pub scratch: Option<Map<Seq<char>, Json>>,
}

impl View for GroupMemberCalls {
    type V = MemberCallsView;

    open spec fn view(&self) -> MemberCallsView {
        MemberCallsView {
            device: self.device,
            calls: views(self.calls@),
            scratch: seen(self.scratch),
        }
    }
}

/// The answer to a request about a group.
#[derive(Clone, Debug)]
pub struct GroupResponse {
    pub disposition: GroupDisposition,
    pub problem: Option<String>,
    pub status: JsonValue,
    pub calls: Vec<HostCall>,
    pub members: Vec<GroupMemberCalls>,
}

#[verifier::ext_equal]
pub ghost struct GroupResponseView {
    pub disposition: GroupDisposition,
    pub problem: Option<Seq<char>>,
    pub status: Json,
    pub calls: Seq<CallView>,
    pub members: Seq<MemberCallsView>,
}

impl View for GroupResponse {
    type V = GroupResponseView;

    open spec fn view(&self) -> GroupResponseView {
        GroupResponseView {
            disposition: self.disposition,
            problem: seen(self.problem),
            status: self.status@,
            calls: views(self.calls@),
            members: views(self.members@),
        }
    }
}

/// What is wrong with a member: it is no light, or its id is empty.
pub open spec fn member_problem(m: GroupMemberView) -> Option<Seq<char>> {
    match m.instance.text("Light id"@) {
        None => Some("device "@ + decimal(m.device as nat) + " is not a Hue light"@),
        Some(id) => if id.len() == 0 {
            Some("device "@ + decimal(m.device as nat) + " has no Hue light id"@)
        } else {
            None
        },
    }
}

/// What is wrong with the first member that something is wrong with.
pub open spec fn first_problem(members: Seq<GroupMemberView>) -> Option<Seq<char>>
    decreases members.len(),
{
    if members.len() == 0 {
        None
    } else {
        match member_problem(members[0]) {
            Some(problem) => Some(problem),
            None => first_problem(members.drop_first()),
        }
    }
}

/// The light ids of the members.
pub open spec fn member_ids(members: Seq<GroupMemberView>) -> Seq<Seq<char>> {
    Seq::new(members.len(), |i: int| members[i].instance.text("Light id"@)->0)
}

/// The lights of a group in order, or what is wrong with the group.
pub open spec fn group_lights(members: Seq<GroupMemberView>) -> Result<Seq<Seq<char>>, Seq<char>> {
    match first_problem(members) {
        Some(problem) => Err(problem),
        None => if !member_ids(members).no_duplicates() {
            Err("the group contains the same Hue light more than once"@)
        } else if members.len() == 0 {
            Err("the group has no Hue lights"@)
        } else {
            Ok(sorted(member_ids(members).to_set()))
        },
    }
}

/// The lights of a group in order, or none where something is wrong with the group.
pub open spec fn lights_or_none(members: Seq<GroupMemberView>) -> Seq<Seq<char>> {
    match group_lights(members) {
        Ok(ids) => ids,
        Err(_) => Seq::empty(),
    }
}

/// What a list of ids, or a problem, stands for.
pub open spec fn ids_seen(r: Result<Vec<String>, String>) -> Result<Seq<Seq<char>>, Seq<char>> {
    match r {
        Ok(ids) => Ok(texts(ids@)),
        Err(problem) => Err(problem@),
    }
}

/// The lights of a group in order, or what is wrong with the group.
pub fn group_light_ids(request: &GroupRequest) -> (r: Result<Vec<String>, String>)
    ensures
        ids_seen(r) == group_lights(request@.members),
{
    let ghost all = request@.members;
    let mut ids: Vec<String> = Vec::new();
    let mut i: usize = 0;
    assert(all.skip(0) =~= all);
    assert(texts(ids@) =~= member_ids(all).take(0));
    while i < request.members.len()
        invariant
            i <= request.members.len(),
            all == request@.members,
            first_problem(all) == first_problem(all.skip(i as int)),
            texts(ids@) == member_ids(all).take(i as int),
        decreases request.members.len() - i,
    {
        let member = &request.members[i];
        assert(all.skip(i as int)[0] == member@);
        let id = match member.instance.text("Light id") {
            Some(id) => id,
            None => {
                return Err(
                    "device ".to_owned().concat(decimal_text(member.device as u64).as_str()).concat(
                        " is not a Hue light",
                    ),
                );
            },
        };
        if id.is_empty() {
            return Err(
                "device ".to_owned().concat(decimal_text(member.device as u64).as_str()).concat(
                    " has no Hue light id",
                ),
            );
        }
        let ghost before = ids@;
        ids.push(id.to_owned());
        proof {
            assert(texts(ids@) =~= texts(before).push(id@));
            assert(member_ids(all).take(i + 1) =~= member_ids(all).take(i as int).push(id@));
            assert(all.skip(i as int).drop_first() =~= all.skip(i + 1));
        }
        i += 1;
    }
    assert(member_ids(all).take(i as int) =~= member_ids(all));
    let ids = sorted_set(ids);
    proof {
        lemma_sorted_len(member_ids(all), texts(ids@));
    }
    if ids.len() != request.members.len() {
        return Err("the group contains the same Hue light more than once".to_owned());
    }
    if ids.is_empty() {
        return Err("the group has no Hue lights".to_owned());
    }
    Ok(ids)
}

/// Whether a link says that its zone was made for the group, and is the given one.
pub open spec fn owned_link(link: Option<Json>, zone: Seq<char>) -> bool {
    link matches Some(l) && l.is_at("ownership"@, "juno"@) && l.is_at("zone"@, zone)
}

/// What is said of one zone: its lights, and how they compare to those of the group. A name that
/// looks like ours is not treated as ownership.
pub open spec fn zone_entry(
    zone: Json,
    desired: Seq<Seq<char>>,
    link: Option<Json>,
) -> Option<Json> {
    match zone.str_at("id"@) {
        None => None,
        Some(id) => Some(
            Json::Object(
                Map::empty().insert("resource"@, Json::Str(id)).insert(
                    "name"@,
                    Json::Str(zone_title(zone)),
                ).insert("members"@, text_array(zone_lights(zone))).insert(
                    "exact_match"@,
                    Json::Bool(zone_lights(zone) == desired),
                ).insert("controllable"@, Json::Bool(zone_service(zone) is Some)).insert(
                    "juno_owned"@,
                    Json::Bool(owned_link(link, id)),
                ),
            ),
        ),
    }
}

/// Whether a link still holds: its zone exists on this bridge, has the lights of the group, and
/// is commanded through the same service.
pub open spec fn link_holds(inst: InstanceView, link: Json, desired: Seq<Seq<char>>) -> bool {
    match link.str_at("zone"@) {
        Some(id) => match zone_known(inst, id) {
            Some(zone) => {
                &&& zone_lights(zone) == desired
                &&& zone_service(zone) == link.str_at("grouped_light"@)
                &&& bridge_known(inst) == link.str_at("bridge_id"@)
            },
            None => false,
        },
        None => false,
    }
}

/// A link as it is shown: without what only the driver needs, and with whether it holds.
pub open spec fn shown_link(link: Json, holds: bool) -> Json {
    match link {
        Json::Object(m) => Json::Object(
            m.remove("token"@).remove("light_ids"@).insert("valid"@, Json::Bool(holds)),
        ),
        other => other,
    }
}

/// How a group stands with the zones of the bridge.
pub open spec fn status_json(inst: InstanceView, request: GroupRequestView) -> Json {
    let desired = lights_or_none(request.members);
    let link = link_of(inst, request.group);
    let linked = match link {
        Some(l) => shown_link(l, link_holds(inst, l, desired)),
        None => Json::Null,
    };
    Json::Object(
        Map::empty().insert("bridge_ready"@, Json::Bool(bridge_known(inst) is Some)).insert(
            "linked"@,
            linked,
        ).insert(
            "zones"@,
            Json::Array(
                zones_known(inst).filter_map(|z: Json| zone_entry(z, desired, link)),
            ),
        ).insert("problem"@, or_null(at(inst.scratch, HUE_GROUP_PROBLEM@))),
    )
}

/// Whether two optional texts are the same.
pub fn same_option(a: Option<&str>, b: Option<&str>) -> (r: bool)
    ensures
        r == (text_of(a) == text_of(b)),
{
    match (a, b) {
        (Some(x), Some(y)) => same(x, y),
        (None, None) => true,
        _ => false,
    }
}

fn zone_shown(zone: &JsonValue, desired: &Vec<String>, link: &Option<JsonValue>) -> (r: Option<
    JsonValue,
>)
    ensures
        seen(r) == zone_entry(zone@, texts(desired@), seen(*link)),
{
    let id = match zone.str_at("id") {
        Some(id) => id,
        None => return None,
    };
    let members = zone_light_ids(zone);
    let owned: bool = match link {
        Some(l) => l.is_at("ownership", "juno") && l.is_at("zone", id),
        None => false,
    };
    Some(
        JsonValue::Object(
            Record::new().with("resource", json_text(id)).with(
                "name",
                json_text(zone_name(zone)),
            ).with("members", json_texts(&members)).with(
                "exact_match",
                JsonValue::Bool(same_texts(&members, desired)),
            ).with("controllable", JsonValue::Bool(zone_grouped_light(zone).is_some())).with(
                "juno_owned",
                JsonValue::Bool(owned),
            ),
        ),
    )
}

fn holds(inst: &Instance, link: &JsonValue, desired: &Vec<String>) -> (r: bool)
    ensures
        r == link_holds(inst@, link@, texts(desired@)),
{
    match link.str_at("zone") {
        Some(id) => match cached_zone(inst, id) {
            Some(zone) => same_texts(&zone_light_ids(zone), desired) && same_option(
                zone_grouped_light(zone),
                link.str_at("grouped_light"),
            ) && same_option(bridge_id(inst), link.str_at("bridge_id")),
            None => false,
        },
        None => false,
    }
}

/// How a group stands with the zones of the bridge.
pub fn group_status(inst: &Instance, request: &GroupRequest) -> (r: JsonValue)
    ensures
        r@ == status_json(inst@, request@),
{
    let desired = match group_light_ids(request) {
        Ok(ids) => ids,
        Err(_) => Vec::new(),
    };
    assert(texts(desired@) =~= lights_or_none(request@.members));
    let link = group_link(inst, request.group);
    let ghost link_seen = link_of(inst@, request.group);
    let ghost f = |z: Json| zone_entry(z, texts(desired@), link_seen);
    let mut zones: Vec<JsonValue> = Vec::new();
    let known = cached_zones(inst);
    let ghost all = listed(known);
    assert(jsons(zones@) =~= all.take(0).filter_map(f)) by {
        reveal_with_fuel(Seq::filter_map, 1);
    }
    if let Some(known) = known {
        let mut i: usize = 0;
        while i < known.len()
            invariant
                i <= known.len(),
                all == jsons(known@),
                seen(link) == link_seen,
                f == (|z: Json| zone_entry(z, texts(desired@), link_seen)),
                jsons(zones@) == all.take(i as int).filter_map(f),
            decreases known.len() - i,
        {
            proof {
                all.lemma_filter_map_take_succ(f, i as int);
            }
            let ghost before = zones@;
            if let Some(entry) = zone_shown(&known[i], &desired, &link) {
                zones.push(entry);
                assert(jsons(zones@) =~= jsons(before).push(entry@));
            }
            i += 1;
        }
    }
    assert(all.take(all.len() as int) =~= all);
    let linked = match link {
        Some(l) => {
            let valid = holds(inst, &l, &desired);
            match l {
                JsonValue::Object(m) => {
                    let mut shown = m;
                    shown.remove("token");
                    shown.remove("light_ids");
                    shown.insert("valid", JsonValue::Bool(valid));
                    JsonValue::Object(shown)
                },
                other => other,
            }
        },
        None => JsonValue::Null,
    };
    let list = JsonValue::Array(zones);
    assert(list@->Array_0 =~= jsons(zones@));
    JsonValue::Object(
        Record::new().with("bridge_ready", JsonValue::Bool(bridge_id(inst).is_some())).with(
            "linked",
            linked,
        ).with("zones", list).with("problem", or_null_of(inst.scratch.get(HUE_GROUP_PROBLEM))),
    )
}

/// A refusal: nothing is sent.
pub open spec fn refusal(problem: Seq<char>, status: Json) -> GroupResponseView {
    GroupResponseView {
        disposition: GroupDisposition::Refused,
        problem: Some(problem),
        status,
        calls: Seq::empty(),
        members: Seq::empty(),
    }
}

/// A refusal: nothing is sent.
pub fn refused(problem: &str, status: JsonValue) -> (r: GroupResponse)
    ensures
        r@ == refusal(problem@, status@),
{
    GroupResponse {
        disposition: GroupDisposition::Refused,
        problem: Some(problem.to_owned()),
        status,
        calls: Vec::new(),
        members: Vec::new(),
    }
}

} // verus!
