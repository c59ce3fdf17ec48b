//! What each command of one light sends, says and remembers, from its arguments alone.
use vstd::prelude::*;

use crate::binary::{law_whole_keeps_value, scaled, unit};
use crate::host::{CallView, InstanceView};
use crate::json::{Json, Number};
use crate::law_terms::{
    asks, count_in, counted, held, inner, is_set, key_set, member, names_in, tells, truth_in,
};
use crate::light::{
    asked_hs, color_json, level_json, light_command, light_plan, mirek_of, power_json, remembered,
    stated, tint_stated, white_json, Pair, PlanView,
};

verus! {

/// The words that laws tell apart are different.
proof fn lemma_words()
    ensures
        "on"@.len() == 2 && "on"@[0] == 'o',
        "off"@.len() == 3 && "off"@[0] == 'o',
        "toggle"@.len() == 6 && "toggle"@[0] == 't',
        "set_level"@.len() == 9 && "set_level"@[0] == 's' && "set_level"@[4] == 'l',
        "set_cct"@.len() == 7 && "set_cct"@[0] == 's',
        "set_color"@.len() == 9 && "set_color"@[0] == 's' && "set_color"@[4] == 'c',
        "ramp_start"@.len() == 10 && "ramp_start"@[0] == 'r',
        "ramp_stop"@.len() == 9 && "ramp_stop"@[0] == 'r',
        "level"@.len() == 5 && "level"@[0] == 'l',
        "dimming"@.len() == 7 && "dimming"@[0] == 'd',
        "dynamics"@.len() == 8 && "dynamics"@[1] == 'y',
        "duration"@.len() == 8 && "duration"@[1] == 'u',
        "brightness"@.len() == 10 && "brightness"@[0] == 'b',
        "color"@.len() == 5 && "color"@[0] == 'c',
        "color_temperature"@.len() == 17,
        "mirek"@.len() == 5 && "mirek"@[0] == 'm',
        "xy"@.len() == 2 && "xy"@[0] == 'x',
        "x"@.len() == 1 && "x"@[0] == 'x',
        "y"@.len() == 1 && "y"@[0] == 'y',
        "kelvin"@.len() == 6 && "kelvin"@[0] == 'k',
        "hue"@.len() == 3 && "hue"@[0] == 'h',
        "sat"@.len() == 3 && "sat"@[0] == 's',
        "ramp_ms"@.len() == 7 && "ramp_ms"@[0] == 'r',
        "direction"@.len() == 9 && "direction"@[0] == 'd',
        "power_changed"@.len() == 13 && "power_changed"@[0] == 'p',
        "level_changed"@.len() == 13 && "level_changed"@[0] == 'l',
        "cct_changed"@.len() == 11,
        "color_changed"@.len() == 13 && "color_changed"@[0] == 'c',
        "up"@.len() == 2 && "up"@[0] == 'u',
{
    reveal_strlit("on");
    reveal_strlit("off");
    reveal_strlit("toggle");
    reveal_strlit("set_level");
    reveal_strlit("set_cct");
    reveal_strlit("set_color");
    reveal_strlit("ramp_start");
    reveal_strlit("ramp_stop");
    reveal_strlit("level");
    reveal_strlit("dimming");
    reveal_strlit("dynamics");
    reveal_strlit("duration");
    reveal_strlit("brightness");
    reveal_strlit("color");
    reveal_strlit("color_temperature");
    reveal_strlit("mirek");
    reveal_strlit("xy");
    reveal_strlit("x");
    reveal_strlit("y");
    reveal_strlit("kelvin");
    reveal_strlit("hue");
    reveal_strlit("sat");
    reveal_strlit("ramp_ms");
    reveal_strlit("direction");
    reveal_strlit("power_changed");
    reveal_strlit("level_changed");
    reveal_strlit("cct_changed");
    reveal_strlit("color_changed");
    reveal_strlit("up");
}

/// A document that switches a light and says nothing of its brightness, with the transition that
/// was asked for, cut to the longest there is.
pub open spec fn switches(doc: Json, on: bool, ramp: Option<u64>) -> bool {
    &&& inner(member(doc, "on"@), "on"@) == Some(Json::Bool(on))
    &&& names_in(doc) == match ramp {
        Some(_) => set!["on"@, "dynamics"@],
        None => set!["on"@],
    }
    &&& ramp matches Some(ms) ==> inner(member(doc, "dynamics"@), "duration"@) == counted(
        if ms <= 6_553_000 {
            ms
        } else {
            6_553_000
        },
    )
}

/// A document that brings a light to a level: a level of 0 only switches it off, and any other
/// switches it on at exactly that brightness.
pub open spec fn brings_to(doc: Json, level: int, ramp: Option<u64>) -> bool {
    if level == 0 {
        switches(doc, false, ramp)
    } else {
        &&& inner(member(doc, "on"@), "on"@) == Some(Json::Bool(true))
        &&& names_in(doc) == match ramp {
            Some(_) => set!["on"@, "dynamics"@, "dimming"@],
            None => set!["on"@, "dimming"@],
        }
        &&& inner(member(doc, "dimming"@), "brightness"@) matches Some(
            Json::Number(Number::Float(bits)),
        ) && scaled(bits) == level * unit()
        &&& ramp matches Some(ms) ==> inner(member(doc, "dynamics"@), "duration"@) == counted(
            if ms <= 6_553_000 {
                ms
            } else {
                6_553_000
            },
        )
    }
}

/// The transition that a command asks for.
pub open spec fn ramp_asked(args: Map<Seq<char>, Json>) -> Option<u64> {
    count_in(held(args, "ramp_ms"@))
}

/// The level that a light was last at, one of 0 to 255; full brightness where nothing is known.
pub open spec fn level_known(inst: InstanceView) -> int {
    match count_in(held(inst.scratch, "level"@)) {
        Some(n) => n as int % 256,
        None => 100,
    }
}

/// The level at which a light comes back: the last that was not 0, or full brightness.
pub open spec fn comes_back_at(inst: InstanceView) -> int {
    if level_known(inst) == 0 {
        100
    } else {
        level_known(inst)
    }
}

/// What calls say of a light that goes to a level, from the given one on and to the end: its
/// power, and its brightness unless it goes out.
pub open spec fn says_level(calls: Seq<CallView>, from: int, level: int) -> bool {
    &&& calls.len() == from + (if level > 0 {
        2int
    } else {
        1int
    })
    &&& tells(calls[from], 1, "power_changed"@, "on"@, Json::Bool(level > 0))
    &&& level > 0 ==> tells(
        calls[from + 1],
        1,
        "level_changed"@,
        "level"@,
        Json::Number(Number::PosInt(level as u64)),
    )
}

/// What a light remembers once it went to a level: that it is on or off, the brightness unless it
/// went out, and everything else as before.
pub open spec fn keeps_level(
    before: Map<Seq<char>, Json>,
    after: Map<Seq<char>, Json>,
    level: int,
) -> bool {
    &&& held(after, "on"@) == Some(Json::Bool(level > 0))
    &&& held(after, "level"@) == if level > 0 {
        counted(level as u64)
    } else {
        held(before, "level"@)
    }
    &&& forall|name: Seq<char>|
        name != "on"@ && name != "level"@ ==> #[trigger] held(after, name) == held(before, name)
}

/// Whether a command sends a light the given document, and nothing else.
pub open spec fn sends_light(
    inst: InstanceView,
    calls: Seq<CallView>,
    id: Seq<char>,
    doc: Json,
) -> bool {
    &&& calls.len() > 0
    &&& asks(
        calls[0],
        "PUT"@,
        "/clip/v2/resource/light/"@ + id,
        key_set(inst.properties),
        doc,
    )
    &&& forall|i: int| 0 < i < calls.len() ==> #[trigger] calls[i] is Notify
}

/// Whether a command brings a light to a level: the document that is sent, what is said and what
/// is then remembered.
pub open spec fn goes_to(
    inst: InstanceView,
    outcome: (InstanceView, Seq<CallView>),
    id: Seq<char>,
    doc: Json,
    level: int,
) -> bool {
    &&& sends_light(inst, outcome.1, id, doc)
    &&& says_level(outcome.1, 1, level)
    &&& keeps_level(inst.scratch, outcome.0.scratch, level)
    &&& outcome.0.properties == inst.properties
    &&& outcome.0.device == inst.device
}

/// The body of a power command switches a light.
pub proof fn lemma_switches(on: bool, ramp: Option<u64>)
    ensures
        switches(power_json(on, ramp), on, ramp),
{
    lemma_words();
    let doc = power_json(on, ramp);
    match ramp {
        Some(_) => assert(names_in(doc) =~= set!["on"@, "dynamics"@]),
        None => assert(names_in(doc) =~= set!["on"@]),
    }
}

/// The body of a level command brings a light to its level.
pub proof fn lemma_brings_to(level: u8, ramp: Option<u64>)
    ensures
        brings_to(level_json(level, ramp), level as int, ramp),
{
    lemma_words();
    lemma_switches(level > 0, ramp);
    law_whole_keeps_value(level);
    let doc = level_json(level, ramp);
    if level > 0 {
        match ramp {
            Some(_) => assert(names_in(doc) =~= set!["on"@, "dynamics"@, "dimming"@]),
            None => assert(names_in(doc) =~= set!["on"@, "dimming"@]),
        }
    }
}

/// What is said at once of a light that goes to a level.
pub proof fn lemma_stated(calls: Seq<CallView>, from: int, level: u8)
    requires
        0 <= from,
        calls.len() == from + stated(level).len(),
        forall|i: int|
            0 <= i < stated(level).len() ==> calls[from + i] == #[trigger] stated(level)[i],
    ensures
        says_level(calls, from, level as int),
{
    lemma_words();
    assert(calls[from + 0] == stated(level)[0]);
    match calls[from] {
        CallView::Notify { args, .. } => assert(args.dom() =~= set!["on"@]),
        _ => {},
    }
    if level > 0 {
        assert(calls[from + 1] == stated(level)[1]);
        match calls[from + 1] {
            CallView::Notify { args, .. } => assert(args.dom() =~= set!["level"@]),
            _ => {},
        }
    }
}

/// What is remembered of a light that goes to a level.
pub proof fn lemma_remembered(scratch: Map<Seq<char>, Json>, level: u8)
    ensures
        keeps_level(scratch, remembered(scratch, level), level as int),
{
    lemma_words();
}

proof fn lemma_goes_to(
    inst: InstanceView,
    cmd: Seq<char>,
    args: Map<Seq<char>, Json>,
    xy: Pair,
    bridge: Seq<char>,
    id: Seq<char>,
    doc: Json,
    level: u8,
)
    requires
        is_set(inst.properties, "Bridge address"@, bridge),
        is_set(inst.properties, "Light id"@, id),
        cmd != "set_cct"@,
        cmd != "set_color"@,
        light_plan(inst, cmd, args, xy) == Some(
            (PlanView { body: doc, level: Some(level) }),
        ),
    ensures
        goes_to(inst, light_command(inst, cmd, args, xy), id, doc, level as int),
{
    lemma_words();
    assert(tint_stated(1, cmd, args) =~= Seq::empty());
    let (after, calls) = light_command(inst, cmd, args, xy);
    assert(calls =~= seq![calls[0]] + stated(level));
    lemma_stated(calls, 1, level);
    lemma_remembered(inst.scratch, level);
}

/// `on` only switches the light on, which comes back at the level it was last at.
pub proof fn law_on_switches_on(
    inst: InstanceView,
    args: Map<Seq<char>, Json>,
    xy: Pair,
    bridge: Seq<char>,
    id: Seq<char>,
)
    requires
        is_set(inst.properties, "Bridge address"@, bridge),
        is_set(inst.properties, "Light id"@, id),
    ensures
        exists|doc: Json|
            switches(doc, true, ramp_asked(args)) && #[trigger] goes_to(
                inst,
                light_command(inst, "on"@, args, xy),
                id,
                doc,
                comes_back_at(inst),
            ),
{
    lemma_words();
    lemma_switches(true, ramp_asked(args));
    let doc = power_json(true, ramp_asked(args));
    lemma_goes_to(inst, "on"@, args, xy, bridge, id, doc, comes_back_at(inst) as u8);
    assert(goes_to(inst, light_command(inst, "on"@, args, xy), id, doc, comes_back_at(inst)));
}

/// `off` only switches the light off.
pub proof fn law_off_switches_off(
    inst: InstanceView,
    args: Map<Seq<char>, Json>,
    xy: Pair,
    bridge: Seq<char>,
    id: Seq<char>,
)
    requires
        is_set(inst.properties, "Bridge address"@, bridge),
        is_set(inst.properties, "Light id"@, id),
    ensures
        exists|doc: Json|
            switches(doc, false, ramp_asked(args)) && #[trigger] goes_to(
                inst,
                light_command(inst, "off"@, args, xy),
                id,
                doc,
                0,
            ),
{
    lemma_words();
    lemma_switches(false, ramp_asked(args));
    let doc = power_json(false, ramp_asked(args));
    lemma_goes_to(inst, "off"@, args, xy, bridge, id, doc, 0);
    assert(goes_to(inst, light_command(inst, "off"@, args, xy), id, doc, 0));
}

/// `toggle` switches a light that is remembered on off, and any other on.
pub proof fn law_toggle_switches_over(
    inst: InstanceView,
    args: Map<Seq<char>, Json>,
    xy: Pair,
    bridge: Seq<char>,
    id: Seq<char>,
    lit: bool,
    level: int,
)
    requires
        is_set(inst.properties, "Bridge address"@, bridge),
        is_set(inst.properties, "Light id"@, id),
        lit == (truth_in(held(inst.scratch, "on"@)) == Some(true)),
        level == if lit {
            0
        } else {
            comes_back_at(inst)
        },
    ensures
        exists|doc: Json|
            switches(doc, !lit, ramp_asked(args)) && #[trigger] goes_to(
                inst,
                light_command(inst, "toggle"@, args, xy),
                id,
                doc,
                level,
            ),
{
    lemma_words();
    lemma_switches(!lit, ramp_asked(args));
    let doc = power_json(!lit, ramp_asked(args));
    lemma_goes_to(inst, "toggle"@, args, xy, bridge, id, doc, level as u8);
    assert(goes_to(inst, light_command(inst, "toggle"@, args, xy), id, doc, level));
}

/// `set_level` brings a light to exactly the level that is asked for, of which eight bits count;
/// to 0, which is off, where none is.
pub proof fn law_set_level_brings_to_the_level(
    inst: InstanceView,
    args: Map<Seq<char>, Json>,
    xy: Pair,
    bridge: Seq<char>,
    id: Seq<char>,
    level: int,
)
    requires
        is_set(inst.properties, "Bridge address"@, bridge),
        is_set(inst.properties, "Light id"@, id),
        level == match count_in(held(args, "level"@)) {
            Some(n) => n as int % 256,
            None => 0,
        },
    ensures
        exists|doc: Json|
            brings_to(doc, level, ramp_asked(args)) && #[trigger] goes_to(
                inst,
                light_command(inst, "set_level"@, args, xy),
                id,
                doc,
                level,
            ),
{
    lemma_words();
    lemma_brings_to(level as u8, ramp_asked(args));
    let doc = level_json(level as u8, ramp_asked(args));
    lemma_goes_to(inst, "set_level"@, args, xy, bridge, id, doc, level as u8);
    assert(goes_to(inst, light_command(inst, "set_level"@, args, xy), id, doc, level));
}

/// Of the levels that a dimmer has, 0 puts a light out and leaves its brightness remembered, and
/// every other is the brightness it is then at.
pub proof fn law_a_dimmer_drawn_down_puts_the_light_out(
    inst: InstanceView,
    args: Map<Seq<char>, Json>,
    xy: Pair,
    bridge: Seq<char>,
    id: Seq<char>,
    level: u64,
)
    requires
        is_set(inst.properties, "Bridge address"@, bridge),
        is_set(inst.properties, "Light id"@, id),
        held(args, "level"@) == counted(level),
        level <= 100,
    ensures
        ({
            let (after, calls) = light_command(inst, "set_level"@, args, xy);
            &&& held(after.scratch, "on"@) == Some(Json::Bool(level > 0))
            &&& level == 0 ==> held(after.scratch, "level"@) == held(inst.scratch, "level"@)
            &&& level > 0 ==> held(after.scratch, "level"@) == counted(level)
            &&& calls.len() == (if level > 0 {
                3int
            } else {
                2int
            })
            &&& tells(calls[1], 1, "power_changed"@, "on"@, Json::Bool(level > 0))
        }),
{
    law_set_level_brings_to_the_level(inst, args, xy, bridge, id, level as int);
}

/// A ramp is a fade of four seconds: up to full brightness, down to the dimmest, and stopping it
/// brings the light back to the level it was last at.
pub proof fn law_a_ramp_is_a_long_fade(
    inst: InstanceView,
    cmd: Seq<char>,
    args: Map<Seq<char>, Json>,
    xy: Pair,
    bridge: Seq<char>,
    id: Seq<char>,
    level: int,
)
    requires
        is_set(inst.properties, "Bridge address"@, bridge),
        is_set(inst.properties, "Light id"@, id),
        cmd == "ramp_start"@ || cmd == "ramp_stop"@,
        level == if cmd == "ramp_stop"@ {
            level_known(inst)
        } else if held(args, "direction"@) == Some(Json::Str("up"@)) {
            100
        } else {
            1
        },
    ensures
        exists|doc: Json|
            brings_to(doc, level, Some(4000)) && #[trigger] goes_to(
                inst,
                light_command(inst, cmd, args, xy),
                id,
                doc,
                level,
            ),
{
    lemma_words();
    lemma_brings_to(level as u8, Some(4000));
    let doc = level_json(level as u8, Some(4000));
    lemma_goes_to(inst, cmd, args, xy, bridge, id, doc, level as u8);
    assert(goes_to(inst, light_command(inst, cmd, args, xy), id, doc, level));
}

/// A number of mireds for a number of kelvin: a million over it, rounded down, and brought to
/// between 153 and 500.
pub open spec fn mireds_for(mirek: u64, kelvin: int) -> bool {
    &&& 153 <= mirek <= 500
    &&& mirek > 153 ==> mirek * kelvin <= 1_000_000
    &&& mirek < 500 ==> 1_000_000 < (mirek + 1) * kelvin
}

/// A document that sets a white, and nothing else.
pub open spec fn whitens(doc: Json, kelvin: int) -> bool {
    &&& names_in(doc) == set!["color_temperature"@]
    &&& inner(member(doc, "color_temperature"@), "mirek"@) matches Some(
        Json::Number(Number::PosInt(mirek)),
    ) && mireds_for(mirek, kelvin)
}

/// The body of a white command sets its white.
pub proof fn lemma_whitens(kelvin: u64)
    ensures
        whitens(
            white_json(mirek_of(kelvin)),
            if kelvin == 0 {
                1
            } else {
                kelvin as int
            },
        ),
{
    lemma_words();
    let k: int = if kelvin == 0 {
        1
    } else {
        kelvin as int
    };
    let q = 1_000_000int / k;
    assert(q * k <= 1_000_000 && 1_000_000 < (q + 1) * k) by (nonlinear_arith)
        requires
            k > 0,
            q == 1_000_000int / k,
    ;
    let m = mirek_of(kelvin) as int;
    assert(m <= q ==> m * k <= q * k) by (nonlinear_arith)
        requires
            k > 0,
    ;
    assert(q <= m ==> (q + 1) * k <= (m + 1) * k) by (nonlinear_arith)
        requires
            k > 0,
    ;
    assert(names_in(white_json(mirek_of(kelvin))) =~= set!["color_temperature"@]);
}

/// `set_cct` sets the white that is asked for, in mireds within what Hue lights span, says it as
/// it was asked for if it was, and leaves what is remembered.
pub proof fn law_set_cct_sets_the_white(
    inst: InstanceView,
    args: Map<Seq<char>, Json>,
    xy: Pair,
    bridge: Seq<char>,
    id: Seq<char>,
)
    requires
        is_set(inst.properties, "Bridge address"@, bridge),
        is_set(inst.properties, "Light id"@, id),
    ensures
        ({
            let (after, calls) = light_command(inst, "set_cct"@, args, xy);
            let asked = count_in(held(args, "kelvin"@));
            exists|doc: Json|
                {
                    &&& #[trigger] sends_light(inst, calls, id, doc)
                    &&& whitens(
                        doc,
                        match asked {
                            Some(0) => 1,
                            Some(k) => k as int,
                            None => 2700,
                        },
                    )
                    &&& after == inst
                    &&& match asked {
                        Some(k) => calls.len() == 2 && tells(
                            calls[1],
                            1,
                            "cct_changed"@,
                            "kelvin"@,
                            Json::Number(Number::PosInt(k)),
                        ),
                        None => calls.len() == 1,
                    }
                }
        }),
{
    lemma_words();
    let k = match count_in(held(args, "kelvin"@)) {
        Some(k) => k,
        None => 2700,
    };
    lemma_whitens(k);
    let doc = white_json(mirek_of(k));
    let calls = light_command(inst, "set_cct"@, args, xy).1;
    if calls.len() > 1 {
        match calls[1] {
            CallView::Notify { args, .. } => assert(args.dom() =~= set!["kelvin"@]),
            _ => {},
        }
    }
    assert(sends_light(inst, calls, id, doc));
}

/// A document that sets a color to a point of the CIE diagram, and nothing else.
pub open spec fn colors(doc: Json, xy: Pair) -> bool {
    &&& names_in(doc) == set!["color"@]
    &&& inner(member(doc, "color"@), "xy"@) matches Some(point) && {
        &&& names_in(point) == set!["x"@, "y"@]
        &&& member(point, "x"@) == Some(Json::Number(xy.first))
        &&& member(point, "y"@) == Some(Json::Number(xy.second))
    }
}

/// `set_color` sets the point that is given, says the hue and saturation as they were asked for,
/// and leaves what is remembered.
pub proof fn law_set_color_sets_the_point(
    inst: InstanceView,
    args: Map<Seq<char>, Json>,
    xy: Pair,
    bridge: Seq<char>,
    id: Seq<char>,
)
    requires
        is_set(inst.properties, "Bridge address"@, bridge),
        is_set(inst.properties, "Light id"@, id),
    ensures
        ({
            let (after, calls) = light_command(inst, "set_color"@, args, xy);
            let nought = Json::Number(Number::Float(0));
            exists|doc: Json|
                {
                    &&& #[trigger] sends_light(inst, calls, id, doc)
                    &&& colors(doc, xy)
                    &&& after == inst
                    &&& calls.len() == 2
                    &&& calls[1] matches CallView::Notify { proxy, name, args: said }
                    &&& proxy == 1
                    &&& name == "color_changed"@
                    &&& said.dom() == set!["hue"@, "sat"@]
                    &&& said["hue"@] == match held(args, "hue"@) {
                        Some(hue) => hue,
                        None => nought,
                    }
                    &&& said["sat"@] == match held(args, "sat"@) {
                        Some(sat) => sat,
                        None => nought,
                    }
                }
        }),
{
    lemma_words();
    let doc = color_json(xy);
    assert(names_in(doc) =~= set!["color"@]);
    let point = inner(member(doc, "color"@), "xy"@)->0;
    assert(names_in(point) =~= set!["x"@, "y"@]);
    let calls = light_command(inst, "set_color"@, args, xy).1;
    match calls[1] {
        CallView::Notify { args: said, .. } => assert(said.dom() =~= set!["hue"@, "sat"@]),
        _ => {},
    }
    assert(sends_light(inst, calls, id, doc));
}

/// The color that a command asks for is its hue and its saturation, each nought where it is not
/// given as a number.
pub proof fn law_the_asked_color_is_the_given_one(args: Map<Seq<char>, Json>)
    ensures
        held(args, "hue"@) matches Some(Json::Number(n)) ==> asked_hs(args).first == n,
        !(held(args, "hue"@) matches Some(Json::Number(_))) ==> asked_hs(args).first
            == Number::Float(0),
        held(args, "sat"@) matches Some(Json::Number(n)) ==> asked_hs(args).second == n,
        !(held(args, "sat"@) matches Some(Json::Number(_))) ==> asked_hs(args).second
            == Number::Float(0),
{
}

/// Whether a command is one that a light knows.
pub open spec fn is_known(cmd: Seq<char>) -> bool {
    ||| cmd == "on"@
    ||| cmd == "off"@
    ||| cmd == "toggle"@
    ||| cmd == "set_level"@
    ||| cmd == "set_cct"@
    ||| cmd == "set_color"@
    ||| cmd == "ramp_start"@
    ||| cmd == "ramp_stop"@
}

/// A command that is not known, or that a light which is not set up is sent, is only a warning.
pub proof fn law_only_what_cannot_be_done_is_a_warning(
    inst: InstanceView,
    cmd: Seq<char>,
    args: Map<Seq<char>, Json>,
    xy: Pair,
)
    ensures
        ({
            let (after, calls) = light_command(inst, cmd, args, xy);
            let set_up = exists|bridge: Seq<char>, id: Seq<char>|
                #![trigger is_set(inst.properties, "Bridge address"@, bridge), is_set(inst.properties, "Light id"@, id)]
                is_set(inst.properties, "Bridge address"@, bridge) && is_set(
                    inst.properties,
                    "Light id"@,
                    id,
                );
            &&& !is_known(cmd) ==> after == inst && calls == seq![
                CallView::Warn { message: "hue: unhandled `"@ + cmd + "`"@ },
            ]
            &&& is_known(cmd) && !set_up ==> after == inst && calls == seq![
                CallView::Warn {
                    message: "hue: set Bridge address and Light id on this device first"@,
                },
            ]
            &&& is_known(cmd) && set_up ==> calls.len() > 0 && calls[0] is Http
        }),
{
    lemma_words();
    if let (Some(Json::Str(bridge)), Some(Json::Str(id))) = (
        held(inst.properties, "Bridge address"@),
        held(inst.properties, "Light id"@),
    ) {
        if bridge.len() > 0 && id.len() > 0 {
            assert(is_set(inst.properties, "Bridge address"@, bridge));
            assert(is_set(inst.properties, "Light id"@, id));
        }
    }
}

} // verus!
