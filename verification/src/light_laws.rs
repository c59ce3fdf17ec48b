//! What holds of the commands of one light.
use vstd::prelude::*;

use crate::binary::whole;
use crate::codec::written_json;
use crate::host::{notify1, CallView, InstanceView};
use crate::json::{at, get_in, object1, u64_in, uint, Json};
use crate::light::{
    last_level, last_on, level_json, light_command, light_plan, light_request, mirek_of, power_json,
    remembered, stated, tint_stated, Pair, LONGEST_RAMP_MS,
};
use crate::role::role_of;

verus! {

/// A power body switches the light and says nothing of its brightness.
pub proof fn law_power_is_only_power(on: bool, ramp_ms: Option<u64>)
    ensures
        power_json(on, ramp_ms).get("on"@) == Some(object1("on"@, Json::Bool(on))),
        power_json(on, ramp_ms).get("dimming"@) is None,
{
    reveal_strlit("on");
    reveal_strlit("dimming");
    reveal_strlit("dynamics");
    assert("dimming"@[1] != "dynamics"@[1]);
}

/// A transition is never longer than the bridge takes.
pub proof fn law_ramp_is_bounded(on: bool, ms: u64)
    ensures
        u64_in(get_in(power_json(on, Some(ms)).get("dynamics"@), "duration"@)) matches Some(d) && d
            <= ms && d <= LONGEST_RAMP_MS,
{
}

/// A white is within what Hue lights span.
pub proof fn law_white_is_bounded(kelvin: u64)
    ensures
        153 <= mirek_of(kelvin) <= 500,
{
}

/// A level of 0 is off, and any other level is on at exactly that brightness.
pub proof fn law_level_zero_is_off(level: u8, ramp_ms: Option<u64>)
    ensures
        level == 0 ==> level_json(level, ramp_ms) == power_json(false, ramp_ms),
        level > 0 ==> level_json(level, ramp_ms).get("on"@) == Some(
            object1("on"@, Json::Bool(true)),
        ),
        level > 0 ==> get_in(level_json(level, ramp_ms).get("dimming"@), "brightness"@) == Some(
            Json::Number(whole(level)),
        ),
{
    reveal_strlit("on");
    reveal_strlit("dimming");
    reveal_strlit("dynamics");
    assert("dimming"@[1] != "dynamics"@[1]);
}

/// Switching a light sends a power body and nothing else, so that the light comes back at its own
/// level.
pub proof fn law_switching_sends_no_brightness(
    inst: InstanceView,
    cmd: Seq<char>,
    args: Map<Seq<char>, Json>,
    xy: Pair,
)
    requires
        cmd == "on"@ || cmd == "off"@ || cmd == "toggle"@,
    ensures
        ({
            let calls = light_command(inst, cmd, args, xy).1;
            let on = cmd == "on"@ || (cmd == "toggle"@ && !last_on(inst));
            let body = power_json(on, u64_in(at(args, "ramp_ms"@)));
            &&& body.get("dimming"@) is None
            &&& forall|i: int|
                0 <= i < calls.len() ==> (#[trigger] calls[i] matches CallView::Http(request)
                    ==> request.body == Some(written_json(body)))
        }),
{
    let ramp = u64_in(at(args, "ramp_ms"@));
    law_power_is_only_power(true, ramp);
    law_power_is_only_power(false, ramp);
    reveal_strlit("on");
    reveal_strlit("off");
    reveal_strlit("toggle");
    reveal_strlit("set_color");
    reveal_strlit("set_cct");
    assert("on"@.len() != "off"@.len());
    assert(tint_stated(1, cmd, args) =~= Seq::empty());
}

/// Remembering a level of 0 leaves the remembered brightness alone, and any other takes its place.
pub proof fn law_off_keeps_the_brightness(scratch: Map<Seq<char>, Json>, level: u8)
    ensures
        level == 0 ==> at(remembered(scratch, level), "level"@) == at(scratch, "level"@),
        level > 0 ==> at(remembered(scratch, level), "level"@) == Some(uint(level as u64)),
        at(remembered(scratch, level), "on"@) == Some(Json::Bool(level > 0)),
{
    reveal_strlit("on");
    reveal_strlit("level");
    assert("on"@.len() != "level"@.len());
}

/// Switching a light off and on again brings it back at the level it was at.
pub proof fn law_off_then_on_restores(
    inst: InstanceView,
    off_args: Map<Seq<char>, Json>,
    on_args: Map<Seq<char>, Json>,
    xy: Pair,
)
    requires
        light_request(inst, Json::Null) is Some,
        last_level(inst) > 0,
    ensures
        ({
            let off = light_command(inst, "off"@, off_args, xy).0;
            let (on, calls) = light_command(off, "on"@, on_args, xy);
            &&& !last_on(off)
            &&& last_on(on)
            &&& last_level(on) == last_level(inst)
            &&& calls.skip(1) == stated(last_level(inst))
        }),
{
    reveal_strlit("on");
    reveal_strlit("off");
    reveal_strlit("level");
    reveal_strlit("set_color");
    reveal_strlit("set_cct");
    let off = light_command(inst, "off"@, off_args, xy).0;
    let last = last_level(inst);
    law_off_keeps_the_brightness(inst.scratch, 0);
    law_off_keeps_the_brightness(off.scratch, last);
    assert(off == inst.with_scratch(remembered(inst.scratch, 0)));
    assert(last_level(off) == last);
    let (on, calls) = light_command(off, "on"@, on_args, xy);
    assert(on == off.with_scratch(remembered(off.scratch, last)));
    assert(tint_stated(1, "on"@, on_args) =~= Seq::empty());
    assert(calls.skip(1) =~= stated(last));
}

/// Toggling a light twice leaves it as it was.
pub proof fn law_toggle_undoes_itself(
    inst: InstanceView,
    first: Map<Seq<char>, Json>,
    second: Map<Seq<char>, Json>,
    xy: Pair,
)
    requires
        light_request(inst, Json::Null) is Some,
        last_level(inst) > 0,
    ensures
        ({
            let once = light_command(inst, "toggle"@, first, xy).0;
            let twice = light_command(once, "toggle"@, second, xy).0;
            &&& last_on(once) == !last_on(inst)
            &&& last_on(twice) == last_on(inst)
            &&& last_level(twice) == last_level(inst)
        }),
{
    reveal_strlit("on");
    reveal_strlit("off");
    reveal_strlit("toggle");
    let last = last_level(inst);
    let once = light_command(inst, "toggle"@, first, xy).0;
    law_off_keeps_the_brightness(inst.scratch, 0);
    law_off_keeps_the_brightness(inst.scratch, last);
    law_off_keeps_the_brightness(once.scratch, 0);
    law_off_keeps_the_brightness(once.scratch, last);
}

/// A command either warns, and then does nothing else and changes nothing, or sends exactly one
/// request, first.
pub proof fn law_a_command_sends_one_request_or_warns(
    inst: InstanceView,
    cmd: Seq<char>,
    args: Map<Seq<char>, Json>,
    xy: Pair,
)
    ensures
        ({
            let (after, calls) = light_command(inst, cmd, args, xy);
            ||| calls.len() == 1 && calls[0] is Warn && after == inst
            ||| calls.len() > 0 && calls[0] is Http && forall|i: int|
                0 < i < calls.len() ==> #[trigger] calls[i] is Notify
        }),
{
}

/// A command changes only what is remembered of the light, never what it is.
pub proof fn law_a_command_keeps_the_role(
    inst: InstanceView,
    cmd: Seq<char>,
    args: Map<Seq<char>, Json>,
    xy: Pair,
)
    ensures
        light_command(inst, cmd, args, xy).0.properties == inst.properties,
        role_of(light_command(inst, cmd, args, xy).0) == role_of(inst),
{
}

/// Whatever level a command sends a light to, power and, while on, brightness are stated at once.
pub proof fn law_the_level_is_stated_at_once(
    inst: InstanceView,
    cmd: Seq<char>,
    args: Map<Seq<char>, Json>,
    xy: Pair,
    level: u8,
)
    requires
        light_request(inst, Json::Null) is Some,
        light_plan(inst, cmd, args, xy) matches Some(plan) && plan.level == Some(level),
    ensures
        ({
            let calls = light_command(inst, cmd, args, xy).1;
            &&& calls.contains(notify1(1, "power_changed"@, "on"@, Json::Bool(level > 0)))
            &&& level > 0 ==> calls.contains(
                notify1(1, "level_changed"@, "level"@, uint(level as u64)),
            )
        }),
{
    let calls = light_command(inst, cmd, args, xy).1;
    assert(calls[1] == stated(level)[0]);
    if level > 0 {
        assert(calls[2] == stated(level)[1]);
    }
}

} // verus!
