//! Commanding all the lights of a group at once.
use vstd::prelude::*;
use vstd::string::*;

use crate::binary::clamped;
use crate::group::{
    group_light_ids, group_lights, GroupMember, GroupMemberCalls, GroupMemberView, GroupRequest,
    GroupRequestView, MemberCallsView,
};
use crate::host::{HostCall, Instance, InstanceView};
use crate::json::{at, bool_in, bool_of, u64_in, u64_of, u64_or, u64_or_of, Json, JsonValue, Record};
use crate::light::{
    color_body, color_json, goes_up, level_body, level_json, mirek_of, power_body, power_json,
    ramp_goes_up, remember, remembered, state_tint, stated, tint_stated, white_body, white_json,
    Pair,
};
use crate::order::same_texts;
use crate::text::same;
use crate::views::{group_views, seen, views};
use crate::zone::{
    bridge_id, bridge_known, cached_zone, group_link, link_of, zone_grouped_light, zone_known,
    zone_light_ids, zone_lights, zone_service,
};
use crate::HueBulb;

verus! {

broadcast use group_views;

/// Whether a member is on, by what the project shows or by what the driver remembers.
pub open spec fn on_now(m: GroupMemberView) -> bool {
    ||| u64_in(at(m.state, "level"@)) matches Some(level) && level > 0
    ||| bool_in(at(m.instance.scratch, "on"@)) == Some(true)
}

/// The level at which a member comes back, from 1 to 100.
pub open spec fn level_of(m: GroupMemberView) -> u8 {
    let level = match u64_in(at(m.instance.scratch, "level"@)) {
        Some(level) => level,
        None => u64_or(at(m.state, "level"@), 100),
    };
    clamped(level as int, 1, 100) as u8
}

/// The highest of the members' levels.
pub open spec fn highest(members: Seq<GroupMemberView>) -> u8
    decreases members.len(),
{
    if members.len() == 0 {
        0
    } else {
        let rest = highest(members.drop_last());
        let last = level_of(members.last());
        if rest > last {
            rest
        } else {
            last
        }
    }
}

/// The level that stands for the whole group.
pub open spec fn group_level(members: Seq<GroupMemberView>) -> u8 {
    if members.len() == 0 {
        100
    } else {
        highest(members)
    }
}

/// What a command of a group comes to: the body to send, the level all lights will then be at,
/// or that each comes back at its own.
pub struct GroupPlan {
    pub body: JsonValue,
    pub shared: Option<u8>,
    pub restore_each: bool,
}

/// What a plan stands for.
pub ghost struct GroupPlanView {
    pub body: Json,
    pub shared: Option<u8>,
    pub restore_each: bool,
}

impl View for GroupPlan {
    type V = GroupPlanView;

    open spec fn view(&self) -> GroupPlanView {
        GroupPlanView { body: self.body@, shared: self.shared, restore_each: self.restore_each }
    }
}

/// What a command of a group comes to, or nothing for a command that is not known.
pub open spec fn group_plan(
    members: Seq<GroupMemberView>,
    cmd: Seq<char>,
    args: Map<Seq<char>, Json>,
    xy: Pair,
) -> Option<GroupPlanView> {
    let ramp = u64_in(at(args, "ramp_ms"@));
    let any_on = exists|i: int| 0 <= i < members.len() && on_now(#[trigger] members[i]);
    let turn_on = GroupPlanView { body: power_json(true, ramp), shared: None, restore_each: true };
    let turn_off = GroupPlanView {
        body: power_json(false, ramp),
        shared: Some(0),
        restore_each: false,
    };
    if cmd == "on"@ {
        Some(turn_on)
    } else if cmd == "off"@ {
        Some(turn_off)
    } else if cmd == "toggle"@ {
        Some(if any_on { turn_off } else { turn_on })
    } else if cmd == "set_level"@ {
        let level = clamped(u64_or(at(args, "level"@), 0) as int, 0, 100) as u8;
        Some(
            GroupPlanView {
                body: level_json(level, ramp),
                shared: Some(level),
                restore_each: false,
            },
        )
    } else if cmd == "set_cct"@ {
        Some(
            GroupPlanView {
                body: white_json(mirek_of(u64_or(at(args, "kelvin"@), 2700))),
                shared: None,
                restore_each: false,
            },
        )
    } else if cmd == "set_color"@ {
        Some(GroupPlanView { body: color_json(xy), shared: None, restore_each: false })
    } else if cmd == "ramp_start"@ || cmd == "ramp_stop"@ {
        let target: u8 = if cmd == "ramp_stop"@ {
            group_level(members)
        } else if goes_up(args) {
            100
        } else {
            1
        };
        Some(
            GroupPlanView {
                body: level_json(target, Some(4000)),
                shared: Some(target),
                restore_each: false,
            },
        )
    } else {
        None
    }
}

/// What one member says and remembers after a command.
pub open spec fn member_after(
    m: GroupMemberView,
    cmd: Seq<char>,
    args: Map<Seq<char>, Json>,
    plan: GroupPlanView,
) -> MemberCallsView {
    let level = if plan.restore_each {
        Some(level_of(m))
    } else {
        plan.shared
    };
    let tint = tint_stated(m.proxy, cmd, args);
    match level {
        Some(l) => MemberCallsView {
            device: m.device,
            calls: stated(l) + tint,
            scratch: Some(remembered(m.instance.scratch, l)),
        },
        None => MemberCallsView {
            device: m.device,
            calls: tint,
            scratch: Some(m.instance.scratch),
        },
    }
}

/// What a command of a group sends, and what each member then says and remembers.
pub open spec fn group_command(
    members: Seq<GroupMemberView>,
    cmd: Seq<char>,
    args: Map<Seq<char>, Json>,
    xy: Pair,
) -> Result<(Json, Seq<MemberCallsView>), Seq<char>> {
    match group_plan(members, cmd, args, xy) {
        None => Err("Hue grouped control does not support `"@ + cmd + "`"@),
        Some(plan) => Ok(
            (
                plan.body,
                Seq::new(members.len(), |i: int| member_after(members[i], cmd, args, plan)),
            ),
        ),
    }
}

/// Whether a member is on.
pub fn member_is_on(member: &GroupMember) -> (r: bool)
    ensures
        r == on_now(member@),
{
    let shown: bool = match u64_of(member.state.get("level")) {
        Some(level) => level > 0,
        None => false,
    };
    let known: bool = match bool_of(member.instance.scratch.get("on")) {
        Some(on) => on,
        None => false,
    };
    shown || known
}

/// The level at which a member comes back, from 1 to 100.
pub fn member_last_level(member: &GroupMember) -> (r: u8)
    ensures
        r == level_of(member@),
        1 <= r <= 100,
{
    let level: u64 = match u64_of(member.instance.scratch.get("level")) {
        Some(level) => level,
        None => u64_or_of(member.state.get("level"), 100),
    };
    if level < 1 {
        1
    } else if level > 100 {
        100
    } else {
        level as u8
    }
}

fn anyone_on(members: &Vec<GroupMember>) -> (r: bool)
    ensures
        r == exists|i: int| 0 <= i < views(members@).len() && on_now(#[trigger] views(members@)[i]),
{
    let ghost all = views(members@);
    let mut i: usize = 0;
    while i < members.len()
        invariant
            i <= members.len(),
            all == views(members@),
            forall|k: int| 0 <= k < i ==> !on_now(#[trigger] all[k]),
        decreases members.len() - i,
    {
        if member_is_on(&members[i]) {
            assert(on_now(all[i as int]));
            return true;
        }
        i += 1;
    }
    false
}

fn level_for_all(members: &Vec<GroupMember>) -> (r: u8)
    ensures
        r == group_level(views(members@)),
{
    let ghost all = views(members@);
    if members.is_empty() {
        return 100;
    }
    let mut best: u8 = 0;
    let mut i: usize = 0;
    while i < members.len()
        invariant
            i <= members.len(),
            all == views(members@),
            best == highest(all.take(i as int)),
        decreases members.len() - i,
    {
        let level: u8 = member_last_level(&members[i]);
        assert(all.take(i + 1).drop_last() =~= all.take(i as int));
        if !(best > level) {
            best = level;
        }
        i += 1;
    }
    assert(all.take(i as int) =~= all);
    best
}

fn plan_for_all(members: &Vec<GroupMember>, cmd: &str, args: &Record, xy: Pair) -> (r: Option<GroupPlan>)
    ensures
        seen(r) == group_plan(views(members@), cmd@, args@, xy),
{
    let ramp = u64_of(args.get("ramp_ms"));
    if same(cmd, "on") {
        Some(GroupPlan { body: power_body(true, ramp), shared: None, restore_each: true })
    } else if same(cmd, "off") {
        Some(GroupPlan { body: power_body(false, ramp), shared: Some(0), restore_each: false })
    } else if same(cmd, "toggle") {
        if anyone_on(members) {
            Some(GroupPlan { body: power_body(false, ramp), shared: Some(0), restore_each: false })
        } else {
            Some(GroupPlan { body: power_body(true, ramp), shared: None, restore_each: true })
        }
    } else if same(cmd, "set_level") {
        let asked: u64 = u64_or_of(args.get("level"), 0);
        let level: u8 = if asked > 100 {
            100
        } else {
            asked as u8
        };
        Some(GroupPlan { body: level_body(level, ramp), shared: Some(level), restore_each: false })
    } else if same(cmd, "set_cct") {
        Some(
            GroupPlan {
                body: white_body(u64_or_of(args.get("kelvin"), 2700)),
                shared: None,
                restore_each: false,
            },
        )
    } else if same(cmd, "set_color") {
        Some(GroupPlan { body: color_body(xy), shared: None, restore_each: false })
    } else if same(cmd, "ramp_start") || same(cmd, "ramp_stop") {
        let target: u8 = if same(cmd, "ramp_stop") {
            level_for_all(members)
        } else if ramp_goes_up(args) {
            100
        } else {
            1
        };
        Some(
            GroupPlan {
                body: level_body(target, Some(4000)),
                shared: Some(target),
                restore_each: false,
            },
        )
    } else {
        None
    }
}

fn after_command(member: &GroupMember, cmd: &str, args: &Record, plan: &GroupPlan) -> (r:
    GroupMemberCalls)
    ensures
        r@ == member_after(member@, cmd@, args@, plan@),
{
    let mut scratch = member.instance.scratch.clone();
    let mut calls: Vec<HostCall> = Vec::new();
    let level: Option<u8> = if plan.restore_each {
        Some(member_last_level(member))
    } else {
        plan.shared
    };
    if let Some(level) = level {
        remember(&mut scratch, level);
        let mut said = HueBulb::optimiztic(level);
        calls.append(&mut said);
    }
    let mut tint = state_tint(member.proxy, cmd, args);
    calls.append(&mut tint);
    let r = GroupMemberCalls { device: member.device, calls, scratch: Some(scratch) };
    assert(r@.calls =~= member_after(member@, cmd@, args@, plan@).calls);
    r
}

/// What a plan for a group, or a problem, stands for.
pub open spec fn plan_seen(
    r: Result<(JsonValue, Vec<GroupMemberCalls>), String>,
) -> Result<(Json, Seq<MemberCallsView>), Seq<char>> {
    match r {
        Ok((body, members)) => Ok((body@, views(members@))),
        Err(problem) => Err(problem@),
    }
}

/// What a command of a group sends, and what each member then says and remembers. `xy` is the
/// point of the CIE diagram for the hue and saturation that the arguments ask for.
pub fn grouped_command(request: &GroupRequest, command: &str, args: &Record, xy: Pair) -> (r: Result<
    (JsonValue, Vec<GroupMemberCalls>),
    String,
>)
    ensures
        plan_seen(r) == group_command(request@.members, command@, args@, xy),
{
    let plan = match plan_for_all(&request.members, command, args, xy) {
        Some(plan) => plan,
        None => {
            return Err(
                "Hue grouped control does not support `".to_owned().concat(command).concat("`"),
            );
        },
    };
    let ghost chosen = plan@;
    let ghost all = request@.members;
    let mut members: Vec<GroupMemberCalls> = Vec::new();
    let mut i: usize = 0;
    while i < request.members.len()
        invariant
            i <= request.members.len(),
            all == views(request.members@),
            chosen == plan@,
            members.len() == i,
            forall|k: int|
                0 <= k < i ==> (#[trigger] members@[k])@ == member_after(
                    all[k],
                    command@,
                    args@,
                    chosen,
                ),
        decreases request.members.len() - i,
    {
        members.push(after_command(&request.members[i], command, args, &plan));
        i += 1;
    }
    assert(views(members@) =~= Seq::new(
        all.len(),
        |i: int| member_after(all[i], command@, args@, chosen),
    ));
    Ok((plan.body, members))
}

/// The service that commands the linked zone of a group, or why the group cannot be commanded
/// through it.
pub open spec fn usable_service(
    inst: InstanceView,
    request: GroupRequestView,
) -> Result<Seq<char>, Seq<char>> {
    match group_lights(request.members) {
        Err(problem) => Err(problem),
        Ok(desired) => match link_of(inst, request.group) {
            None => Err("this Juno group is not linked to a Hue zone"@),
            Some(link) => match bridge_known(inst) {
                None => Err("the Hue bridge identity has not loaded yet"@),
                Some(bridge) => if link.str_at("bridge_id"@) != Some(bridge) {
                    Err("the saved zone belongs to a different Hue bridge"@)
                } else {
                    match link.str_at("zone"@) {
                        None => Err("the saved Hue zone link is incomplete"@),
                        Some(id) => match zone_known(inst, id) {
                            None => Err("the linked Hue zone no longer exists"@),
                            Some(zone) => if zone_lights(zone) != desired {
                                Err(
                                    "the linked Hue zone membership changed; using individual lights"@,
                                )
                            } else {
                                match zone_service(zone) {
                                    None => Err(
                                        "the linked Hue zone has no grouped-light service"@,
                                    ),
                                    Some(service) => if link.str_at("grouped_light"@) != Some(
                                        service,
                                    ) {
                                        Err(
                                            "the linked Hue zone service changed; using individual lights"@,
                                        )
                                    } else {
                                        Ok(service)
                                    },
                                }
                            },
                        },
                    }
                },
            },
        },
    }
}

/// What an id, or a problem, stands for.
pub open spec fn id_seen(r: Result<String, String>) -> Result<Seq<char>, Seq<char>> {
    match r {
        Ok(id) => Ok(id@),
        Err(problem) => Err(problem@),
    }
}

/// The service that commands the linked zone of a group, or why the group cannot be commanded
/// through it.
pub fn validated_grouped_light(inst: &Instance, request: &GroupRequest) -> (r: Result<
    String,
    String,
>)
    ensures
        id_seen(r) == usable_service(inst@, request@),
{
    let desired = match group_light_ids(request) {
        Ok(ids) => ids,
        Err(problem) => return Err(problem),
    };
    let link = match group_link(inst, request.group) {
        Some(link) => link,
        None => return Err("this Juno group is not linked to a Hue zone".to_owned()),
    };
    let current = match bridge_id(inst) {
        Some(id) => id,
        None => return Err("the Hue bridge identity has not loaded yet".to_owned()),
    };
    if !link.is_at("bridge_id", current) {
        return Err("the saved zone belongs to a different Hue bridge".to_owned());
    }
    let zone_id = match link.str_at("zone") {
        Some(id) => id,
        None => return Err("the saved Hue zone link is incomplete".to_owned()),
    };
    let zone = match cached_zone(inst, zone_id) {
        Some(zone) => zone,
        None => return Err("the linked Hue zone no longer exists".to_owned()),
    };
    if !same_texts(&zone_light_ids(zone), &desired) {
        return Err("the linked Hue zone membership changed; using individual lights".to_owned());
    }
    let service = match zone_grouped_light(zone) {
        Some(service) => service,
        None => return Err("the linked Hue zone has no grouped-light service".to_owned()),
    };
    if !link.is_at("grouped_light", service) {
        return Err("the linked Hue zone service changed; using individual lights".to_owned());
    }
    Ok(service.to_owned())
}

} // verus!
