//! What holds of how a device hears the bridge.
use vstd::prelude::*;

use crate::bind::{bind_calls, collections};
use crate::event::{
    brightness_reported, called, event_outcome, frame_outcome, heard, heard_all, heard_updates,
    offers, report_effects, report_scratch, reread, touches, update_kind,
};
use crate::host::{notify1, CallView, EffectView, InstanceView};
use crate::json::{at, bool_in, get_in, items_in, u64_or, uint, Json};
use crate::light::{last_level, light_command, light_request, stated, tint_stated, Pair};
use crate::role::{role_of, Role};

verus! {

/// Whether an effect offers a new device.
pub open spec fn is_offer(effect: EffectView) -> bool {
    effect matches EffectView::Call(CallView::Notify { name, .. }) && name == "device_added"@
}

/// Whether an effect says that the device no longer exists.
pub open spec fn is_farewell(effect: EffectView) -> bool {
    effect matches EffectView::Call(CallView::Gone { .. })
}

/// What a device hears never changes what it is: only what it remembers.
pub proof fn law_hearing_keeps_the_role(inst: InstanceView, kind: Seq<char>, resource: Json)
    ensures
        heard(inst, kind, resource).0.properties == inst.properties,
        heard(inst, kind, resource).0.device == inst.device,
        role_of(heard(inst, kind, resource).0) == role_of(inst),
{
}

/// A bulb hears only what names it: any other resource changes nothing and makes it say nothing.
pub proof fn law_a_bulb_hears_only_itself(inst: InstanceView, kind: Seq<char>, resource: Json)
    requires
        role_of(inst) == Role::Bulb,
        resource.str_at("id"@) != inst.text("Light id"@),
    ensures
        heard(inst, kind, resource) == (inst, Seq::<EffectView>::empty()),
{
    if let Some(rid) = resource.str_at("id"@) {
        assert(!Role::Bulb.spec_owns(inst, rid));
    }
}

/// Whether none of the resources is one that a bulb goes by.
pub open spec fn names_nobody(inst: InstanceView, data: Seq<Json>) -> bool {
    forall|i: int| 0 <= i < data.len() ==> (#[trigger] data[i]).str_at("id"@) != inst.text(
        "Light id"@,
    )
}

/// A bulb hears nothing in an answer or an update that does not name it.
pub proof fn law_a_bulb_skips_what_is_not_its_own(
    inst: InstanceView,
    kind: Seq<char>,
    data: Seq<Json>,
)
    requires
        role_of(inst) == Role::Bulb,
        names_nobody(inst, data),
    ensures
        heard_all(inst, kind, data) == (inst, Seq::<EffectView>::empty()),
    decreases data.len(),
{
    if data.len() > 0 {
        let rest = data.drop_last();
        assert forall|i: int| 0 <= i < rest.len() implies (#[trigger] rest[i]).str_at("id"@)
            != inst.text("Light id"@) by {
            assert(rest[i] == data[i]);
        }
        law_a_bulb_skips_what_is_not_its_own(inst, kind, rest);
        law_a_bulb_hears_only_itself(inst, kind, data.last());
        assert(Seq::<EffectView>::empty() + Seq::<EffectView>::empty()
            =~= Seq::<EffectView>::empty());
    }
}

/// A whole frame that does not name a bulb leaves it as it was, silent.
pub proof fn law_a_frame_about_others_means_nothing(inst: InstanceView, frame: Json)
    requires
        role_of(inst) == Role::Bulb,
        forall|u: int|
            0 <= u < items_in(Some(frame)).len() ==> names_nobody(
                inst,
                (#[trigger] items_in(Some(frame))[u]).items_at("data"@),
            ),
    ensures
        frame_outcome(inst, frame) == (inst, Seq::<EffectView>::empty()),
{
    lemma_updates_about_others(inst, items_in(Some(frame)));
    let none = Seq::<EffectView>::empty();
    assert(none + none + none + none =~= none);
}

proof fn lemma_updates_about_others(inst: InstanceView, updates: Seq<Json>)
    requires
        role_of(inst) == Role::Bulb,
        forall|u: int|
            0 <= u < updates.len() ==> names_nobody(
                inst,
                (#[trigger] updates[u]).items_at("data"@),
            ),
    ensures
        heard_updates(inst, updates) == (inst, Seq::<EffectView>::empty()),
    decreases updates.len(),
{
    if updates.len() > 0 {
        let rest = updates.drop_last();
        assert forall|u: int| 0 <= u < rest.len() implies names_nobody(
            inst,
            (#[trigger] rest[u]).items_at("data"@),
        ) by {
            assert(rest[u] == updates[u]);
        }
        lemma_updates_about_others(inst, rest);
        let update = updates.last();
        law_a_bulb_skips_what_is_not_its_own(inst, update_kind(update), update.items_at("data"@));
        assert(Seq::<EffectView>::empty() + Seq::<EffectView>::empty()
            =~= Seq::<EffectView>::empty());
    }
}

/// Nothing but a device is ever offered, at most once, and only by the bridge.
pub proof fn law_only_the_bridge_offers_devices(
    inst: InstanceView,
    resource: Json,
)
    ensures
        offers(resource).len() <= 1,
        !resource.is_at("type"@, "device"@) ==> offers(resource).len() == 0,
        heard(inst, "add"@, resource).0 == inst,
        role_of(inst) != Role::Bridge ==> heard(inst, "add"@, resource).1.len() == 0,
        role_of(inst) == Role::Bridge ==> heard(inst, "add"@, resource).1 == called(
            offers(resource),
        ),
{
}

/// A device is gone exactly when a resource that it answers to is deleted.
pub proof fn law_a_device_is_gone_with_any_of_its_own(
    inst: InstanceView,
    kind: Seq<char>,
    resource: Json,
)
    ensures
        (exists|i: int|
            0 <= i < heard(inst, kind, resource).1.len() && is_farewell(
                #[trigger] heard(inst, kind, resource).1[i],
            )) <==> (kind == "delete"@ && (resource.str_at("id"@) matches Some(rid)
            && role_of(inst).spec_owns(inst, rid))),
{
    reveal_strlit("add");
    reveal_strlit("delete");
    assert("add"@.len() != "delete"@.len());
    let effects = heard(inst, kind, resource).1;
    if kind == "delete"@ && (resource.str_at("id"@) matches Some(rid) && role_of(inst).spec_owns(
        inst,
        rid,
    )) {
        assert(is_farewell(effects[0]));
    }
}

/// The bridge hears every deletion in the house, and removes nothing.
pub proof fn law_the_bridge_is_never_gone(inst: InstanceView, kind: Seq<char>, resource: Json)
    requires
        role_of(inst) == Role::Bridge,
    ensures
        forall|i: int|
            0 <= i < heard(inst, kind, resource).1.len() ==> !is_farewell(
                #[trigger] heard(inst, kind, resource).1[i],
            ),
{
    law_a_device_is_gone_with_any_of_its_own(inst, kind, resource);
}

proof fn lemma_update_never_offers(inst: InstanceView, data: Seq<Json>)
    ensures
        forall|i: int|
            0 <= i < heard_all(inst, "update"@, data).1.len() ==> !is_offer(
                #[trigger] heard_all(inst, "update"@, data).1[i],
            ),
    decreases data.len(),
{
    if data.len() > 0 {
        let (before, done) = heard_all(inst, "update"@, data.drop_last());
        lemma_update_never_offers(inst, data.drop_last());
        reveal_strlit("add");
        reveal_strlit("update");
        assert("add"@.len() != "update"@.len());
        reveal_strlit("device_added");
        reveal_strlit("power_changed");
        reveal_strlit("level_changed");
        reveal_strlit("cct_changed");
        assert("device_added"@.len() != "power_changed"@.len());
        assert("device_added"@.len() != "level_changed"@.len());
        assert("device_added"@.len() != "cct_changed"@.len());
        let more = heard(before, "update"@, data.last()).1;
        assert(forall|i: int| 0 <= i < more.len() ==> !is_offer(#[trigger] more[i]));
        let all = heard_all(inst, "update"@, data).1;
        assert forall|i: int| 0 <= i < all.len() implies !is_offer(#[trigger] all[i]) by {
            if i < done.len() {
                assert(all[i] == done[i]);
            } else {
                assert(all[i] == more[i - done.len()]);
            }
        }
    }
}

/// An answer of the bridge is a snapshot of what is already there: nothing in it is ever offered,
/// to whatever device it is handed.
pub proof fn law_a_poll_never_offers(
    inst: InstanceView,
    args: Map<Seq<char>, Json>,
    scene_waits: bool,
)
    ensures
        forall|i: int|
            0 <= i < event_outcome(inst, "http_response"@, args, scene_waits).1.len() ==> !is_offer(
                #[trigger] event_outcome(inst, "http_response"@, args, scene_waits).1[i],
            ),
{
    reveal_strlit("rx");
    reveal_strlit("http_response");
    assert("rx"@.len() != "http_response"@.len());
    lemma_update_never_offers(inst, items_in(get_in(at(args, "body"@), "data"@)));
}

/// What a report does not say stays as it was: power without a switch, brightness without a
/// dimmer.
pub proof fn law_a_report_keeps_what_it_does_not_say(scratch: Map<Seq<char>, Json>, light: Json)
    ensures
        bool_in(get_in(light.get("on"@), "on"@)) is None ==> bool_in(
            at(report_scratch(scratch, light), "on"@),
        ) == bool_in(at(scratch, "on"@)),
        brightness_reported(light) is None ==> u64_or(
            at(report_scratch(scratch, light), "level"@),
            100,
        ) == u64_or(at(scratch, "level"@), 100),
        forall|key: Seq<char>|
            key != "on"@ && key != "level"@ ==> #[trigger] at(report_scratch(scratch, light), key)
                == at(scratch, key),
{
    reveal_strlit("on");
    reveal_strlit("level");
    assert("on"@.len() != "level"@.len());
}

/// A report that a light is off, and how bright, is remembered and told as both: the brightness
/// is the one it will come back at, from 1 to 100, and never 0 standing in for off.
pub proof fn law_an_off_light_keeps_its_brightness(scratch: Map<Seq<char>, Json>, light: Json)
    requires
        bool_in(get_in(light.get("on"@), "on"@)) == Some(false),
        brightness_reported(light) is Some,
    ensures
        ({
            let level = brightness_reported(light)->0;
            let after = report_scratch(scratch, light);
            let effects = report_effects(scratch, light);
            &&& 1 <= level <= 100
            &&& at(after, "on"@) == Some(Json::Bool(false))
            &&& at(after, "level"@) == Some(uint(level))
            &&& effects.contains(
                EffectView::Call(notify1(1, "power_changed"@, "on"@, Json::Bool(false))),
            )
            &&& effects.contains(
                EffectView::Call(notify1(1, "level_changed"@, "level"@, uint(level))),
            )
        }),
{
    reveal_strlit("on");
    reveal_strlit("level");
    assert("on"@.len() != "level"@.len());
    let effects = report_effects(scratch, light);
    let level = brightness_reported(light)->0;
    assert(effects[1] == EffectView::Call(
        notify1(1, "power_changed"@, "on"@, Json::Bool(false)),
    ));
    assert(effects[2] == EffectView::Call(
        notify1(1, "level_changed"@, "level"@, uint(level)),
    ));
}

/// The brightness that a light reports is the one that a plain `on` brings it back at.
pub proof fn law_a_reported_level_is_restored(
    inst: InstanceView,
    light: Json,
    args: Map<Seq<char>, Json>,
    xy: Pair,
)
    requires
        light_request(inst, Json::Null) is Some,
        brightness_reported(light) is Some,
    ensures
        ({
            let after = inst.with_scratch(report_scratch(inst.scratch, light));
            let calls = light_command(after, "on"@, args, xy).1;
            calls.skip(1) == stated(brightness_reported(light)->0 as u8)
        }),
{
    reveal_strlit("on");
    reveal_strlit("set_color");
    reveal_strlit("set_cct");
    reveal_strlit("level");
    assert("on"@.len() != "level"@.len());
    assert("on"@.len() != "set_color"@.len());
    assert("on"@.len() != "set_cct"@.len());
    let after = inst.with_scratch(report_scratch(inst.scratch, light));
    let calls = light_command(after, "on"@, args, xy).1;
    assert(last_level(after) == brightness_reported(light)->0 as u8);
    assert(tint_stated(1, "on"@, args) =~= Seq::empty());
    assert(calls.skip(1) =~= stated(brightness_reported(light)->0 as u8));
}

/// Hearing the same report twice changes nothing more.
pub proof fn law_a_report_settles(scratch: Map<Seq<char>, Json>, light: Json)
    ensures
        report_scratch(report_scratch(scratch, light), light) == report_scratch(scratch, light),
{
    reveal_strlit("on");
    reveal_strlit("level");
    assert("on"@.len() != "level"@.len());
    let once = report_scratch(scratch, light);
    assert(report_scratch(once, light) =~= once);
}

/// Only the bridge reads a collection again, and only one that the frame named.
pub proof fn law_only_the_bridge_reads_again(
    inst: InstanceView,
    updates: Seq<Json>,
    rtype: Seq<char>,
)
    ensures
        reread(inst, updates, rtype).len() <= 1,
        reread(inst, updates, rtype).len() == 1 ==> role_of(inst) == Role::Bridge && touches(
            updates,
            rtype,
        ) && inst.has("Bridge address"@),
{
}

/// Nothing behind the bridge asks for anything when it is brought up: it only comes online.
pub proof fn law_only_the_bridge_asks_at_start(inst: InstanceView)
    ensures
        role_of(inst) != Role::Bridge ==> forall|i: int|
            0 <= i < bind_calls(inst).len() ==> #[trigger] bind_calls(inst)[i] is Notify,
{
}

/// The presses of buttons are never read at start: a press is an event, and an old one would be
/// reported as if it had just happened.
pub proof fn law_buttons_are_not_read_at_start()
    ensures
        !collections().contains("button"@),
{
    reveal_strlit("button");
    reveal_strlit("light");
    reveal_strlit("motion");
    reveal_strlit("temperature");
    reveal_strlit("light_level");
    reveal_strlit("device_power");
    reveal_strlit("zone");
    reveal_strlit("room");
    reveal_strlit("scene");
    assert("button"@[0] != "motion"@[0]);
}

} // verus!
