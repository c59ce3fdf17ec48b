//! Commanding one light.
use vstd::prelude::*;
use vstd::string::*;

use crate::binary::{clamped, whole, whole_number};
use crate::host::{
    notify1, CallView, HostCall, HttpRequest, HttpRequestView, Instance, InstanceView, LocalId,
};
use crate::json::{
    at, bool_in, bool_of, json_in, json_object1, json_uint, number_in, number_of, object1, str_in,
    str_of, u64_in, u64_of, u64_or, u64_or_of, uint, Json, JsonValue, Number, Record,
};
use crate::text::same;
use crate::views::{group_views, seen, views};
use crate::HueBulb;

verus! {

broadcast use group_views;

/// The longest transition that the bridge takes, in milliseconds.
pub const LONGEST_RAMP_MS: u64 = 6_553_000;

/// Two numbers: a point of the CIE diagram, or a hue and a saturation.
#[derive(Clone, Copy, Debug, PartialEq, Eq, Structural)]
pub struct Pair {
    pub first: Number,
    pub second: Number,
}

/// The body of a power command, which is deliberately only a power command: it holds no
/// dimming, so that the light restores its own last level.
pub open spec fn power_json(on: bool, ramp_ms: Option<u64>) -> Json {
    let body = Map::empty().insert("on"@, object1("on"@, Json::Bool(on)));
    Json::Object(
        match ramp_ms {
            Some(ms) => body.insert(
                "dynamics"@,
                object1("duration"@, uint(if ms < LONGEST_RAMP_MS { ms } else { LONGEST_RAMP_MS })),
            ),
            None => body,
        },
    )
}

/// The body of a level command. A level of 0 is off, since the bridge takes a brightness of 0
/// for the dimmest that is on.
pub open spec fn level_json(level: u8, ramp_ms: Option<u64>) -> Json {
    let body = power_json(level > 0, ramp_ms)->Object_0;
    Json::Object(
        if level > 0 {
            body.insert("dimming"@, object1("brightness"@, Json::Number(whole(level))))
        } else {
            body
        },
    )
}

/// The body that sets a white.
pub open spec fn white_json(mirek: u64) -> Json {
    object1("color_temperature"@, object1("mirek"@, uint(mirek)))
}

/// The body that sets a color.
pub open spec fn color_json(xy: Pair) -> Json {
    object1(
        "color"@,
        object1(
            "xy"@,
            Json::Object(
                Map::empty().insert("x"@, Json::Number(xy.first)).insert("y"@, Json::Number(xy.second)),
            ),
        ),
    )
}

/// The mireds of a color temperature, within what Hue lights span.
pub open spec fn mirek_of(kelvin: u64) -> u64 {
    let k: int = if kelvin == 0 {
        1
    } else {
        kelvin as int
    };
    clamped(1_000_000int / k, 153, 500) as u64
}

/// The body of a power command.
pub fn power_body(on: bool, ramp_ms: Option<u64>) -> (r: JsonValue)
    ensures
        r@ == power_json(on, ramp_ms),
{
    let mut body = Record::new().with("on", json_object1("on", JsonValue::Bool(on)));
    if let Some(ms) = ramp_ms {
        let duration: u64 = if ms < LONGEST_RAMP_MS {
            ms
        } else {
            LONGEST_RAMP_MS
        };
        body.insert("dynamics", json_object1("duration", json_uint(duration)));
    }
    JsonValue::Object(body)
}

/// The body of a level command.
pub fn level_body(level: u8, ramp_ms: Option<u64>) -> (r: JsonValue)
    ensures
        r@ == level_json(level, ramp_ms),
{
    match power_body(level > 0, ramp_ms) {
        JsonValue::Object(power) => {
            let mut body = power;
            if level > 0 {
                body.insert(
                    "dimming",
                    json_object1("brightness", JsonValue::Number(whole_number(level))),
                );
            }
            JsonValue::Object(body)
        },
        other => other,
    }
}

/// The body that sets a white.
pub fn white_body(kelvin: u64) -> (r: JsonValue)
    ensures
        r@ == white_json(mirek_of(kelvin)),
{
    let k: u64 = if kelvin == 0 {
        1
    } else {
        kelvin
    };
    let mirek: u64 = 1_000_000 / k;
    let mirek: u64 = if mirek < 153 {
        153
    } else if mirek > 500 {
        500
    } else {
        mirek
    };
    json_object1("color_temperature", json_object1("mirek", json_uint(mirek)))
}

/// The body that sets a color.
pub fn color_body(xy: Pair) -> (r: JsonValue)
    ensures
        r@ == color_json(xy),
{
    let point = Record::new().with("x", JsonValue::Number(xy.first)).with(
        "y",
        JsonValue::Number(xy.second),
    );
    json_object1("color", json_object1("xy", JsonValue::Object(point)))
}

/// The hue and saturation that a command asks for, each nought where it is not said.
pub open spec fn asked_hs(args: Map<Seq<char>, Json>) -> Pair {
    Pair {
        first: number_or_zero(at(args, "hue"@)),
        second: number_or_zero(at(args, "sat"@)),
    }
}

/// A number argument, or nought where it is not said.
pub open spec fn number_or_zero(o: Option<Json>) -> Number {
    match number_in(o) {
        Some(n) => n,
        None => Number::Float(0),
    }
}

/// The hue and saturation that a command asks for, each nought where it is not said.
pub fn asked_color(args: &Record) -> (r: Pair)
    ensures
        r == asked_hs(args@),
{
    let first = match number_of(args.get("hue")) {
        Some(n) => n,
        None => Number::Float(0),
    };
    let second = match number_of(args.get("sat")) {
        Some(n) => n,
        None => Number::Float(0),
    };
    Pair { first, second }
}

/// Whether a ramp goes up.
pub open spec fn goes_up(args: Map<Seq<char>, Json>) -> bool {
    str_in(at(args, "direction"@)) == Some("up"@)
}

/// Whether a ramp goes up.
pub fn ramp_goes_up(args: &Record) -> (r: bool)
    ensures
        r == goes_up(args@),
{
    match str_of(args.get("direction")) {
        Some(s) => same(s, "up"),
        None => false,
    }
}

/// What a command comes to: the body to send, and the level the light will then be at.
pub struct Plan {
    pub body: JsonValue,
    pub level: Option<u8>,
}

/// What a plan stands for.
pub ghost struct PlanView {
    pub body: Json,
    pub level: Option<u8>,
}

impl View for Plan {
    type V = PlanView;

    open spec fn view(&self) -> PlanView {
        PlanView { body: self.body@, level: self.level }
    }
}

/// The level that the light was last at, in the eight bits kept of it.
pub open spec fn last_level(inst: InstanceView) -> u8 {
    (u64_or(at(inst.scratch, "level"@), 100) % 256) as u8
}

/// Whether the light was last on.
pub open spec fn last_on(inst: InstanceView) -> bool {
    bool_in(at(inst.scratch, "on"@)) == Some(true)
}

/// The level at which a light that was last at the given level comes back.
pub open spec fn restored(last: u8) -> u8 {
    if last == 0 {
        100
    } else {
        last
    }
}

/// What a command of one light comes to, or nothing for a command that is not known.
pub open spec fn light_plan(
    inst: InstanceView,
    cmd: Seq<char>,
    args: Map<Seq<char>, Json>,
    xy: Pair,
) -> Option<PlanView> {
    let ramp = u64_in(at(args, "ramp_ms"@));
    let last = last_level(inst);
    if cmd == "on"@ {
        Some(PlanView { body: power_json(true, ramp), level: Some(restored(last)) })
    } else if cmd == "off"@ {
        Some(PlanView { body: power_json(false, ramp), level: Some(0) })
    } else if cmd == "toggle"@ {
        let on = last_on(inst);
        Some(
            PlanView {
                body: power_json(!on, ramp),
                level: Some(if on { 0 } else { restored(last) }),
            },
        )
    } else if cmd == "set_level"@ {
        let level = (u64_or(at(args, "level"@), 0) % 256) as u8;
        Some(PlanView { body: level_json(level, ramp), level: Some(level) })
    } else if cmd == "set_cct"@ {
        Some(
            PlanView {
                body: white_json(mirek_of(u64_or(at(args, "kelvin"@), 2700))),
                level: None,
            },
        )
    } else if cmd == "set_color"@ {
        Some(PlanView { body: color_json(xy), level: None })
    } else if cmd == "ramp_start"@ || cmd == "ramp_stop"@ {
        let target: u8 = if cmd == "ramp_stop"@ {
            last
        } else if goes_up(args) {
            100
        } else {
            1
        };
        Some(PlanView { body: level_json(target, Some(4000)), level: Some(target) })
    } else {
        None
    }
}

/// What is remembered of a light that goes to a level. A level of 0 leaves the remembered
/// brightness alone, so that the next plain `on` restores it.
pub open spec fn remembered(
    scratch: Map<Seq<char>, Json>,
    level: u8,
) -> Map<Seq<char>, Json> {
    (if level > 0 {
        scratch.insert("level"@, uint(level as u64))
    } else {
        scratch
    }).insert("on"@, Json::Bool(level > 0))
}

/// Remembers that a light goes to a level.
pub fn remember(scratch: &mut Record, level: u8)
    ensures
        final(scratch)@ == remembered(old(scratch)@, level),
{
    if level > 0 {
        scratch.insert("level", json_uint(level as u64));
    }
    scratch.insert("on", JsonValue::Bool(level > 0));
}

/// What is said at once of a light that goes to a level: power always, brightness while on.
pub open spec fn stated(level: u8) -> Seq<CallView> {
    let power = seq![notify1(1, "power_changed"@, "on"@, Json::Bool(level > 0))];
    if level > 0 {
        power.push(notify1(1, "level_changed"@, "level"@, uint(level as u64)))
    } else {
        power
    }
}

/// What is said at once of a light that is sent a white or a color.
pub open spec fn tint_stated(
    proxy: LocalId,
    cmd: Seq<char>,
    args: Map<Seq<char>, Json>,
) -> Seq<CallView> {
    let white = match u64_in(at(args, "kelvin"@)) {
        Some(k) if cmd == "set_cct"@ => seq![notify1(proxy, "cct_changed"@, "kelvin"@, uint(k))],
        _ => Seq::empty(),
    };
    if cmd == "set_color"@ {
        white.push(
            CallView::Notify {
                proxy,
                name: "color_changed"@,
                args: Map::empty().insert("hue"@, json_or_zero(at(args, "hue"@))).insert(
                    "sat"@,
                    json_or_zero(at(args, "sat"@)),
                ),
            },
        )
    } else {
        white
    }
}

/// An argument as it was given, or nought where it is not said.
pub open spec fn json_or_zero(o: Option<Json>) -> Json {
    match o {
        Some(j) => j,
        None => Json::Number(Number::Float(0)),
    }
}

fn or_zero(o: Option<&JsonValue>) -> (r: JsonValue)
    ensures
        r@ == json_or_zero(json_in(o)),
{
    match o {
        Some(v) => v.clone(),
        None => JsonValue::Number(Number::Float(0)),
    }
}

/// What is said at once of a light that is sent a white or a color.
pub fn state_tint(proxy: LocalId, cmd: &str, args: &Record) -> (r: Vec<HostCall>)
    ensures
        views(r@) == tint_stated(proxy, cmd@, args@),
{
    let mut out: Vec<HostCall> = Vec::new();
    if same(cmd, "set_cct") {
        if let Some(k) = u64_of(args.get("kelvin")) {
            out.push(HostCall::notify1(proxy, "cct_changed", "kelvin", json_uint(k)));
        }
    }
    assert(views(out@) =~= (match u64_in(at(args@, "kelvin"@)) {
        Some(k) if cmd@ == "set_cct"@ => seq![notify1(proxy, "cct_changed"@, "kelvin"@, uint(k))],
        _ => Seq::empty(),
    }));
    if same(cmd, "set_color") {
        let changed = Record::new().with("hue", or_zero(args.get("hue"))).with(
            "sat",
            or_zero(args.get("sat")),
        );
        out.push(HostCall::notify(proxy, "color_changed", changed));
    }
    out
}

fn plan(inst: &Instance, cmd: &str, args: &Record, xy: Pair) -> (r: Option<Plan>)
    ensures
        seen(r) == light_plan(inst@, cmd@, args@, xy),
{
    let ramp = u64_of(args.get("ramp_ms"));
    let kept: u64 = u64_or_of(inst.scratch.get("level"), 100);
    let last: u8 = (kept % 256) as u8;
    let restore: u8 = if last == 0 {
        100
    } else {
        last
    };
    if same(cmd, "on") {
        Some(Plan { body: power_body(true, ramp), level: Some(restore) })
    } else if same(cmd, "off") {
        Some(Plan { body: power_body(false, ramp), level: Some(0) })
    } else if same(cmd, "toggle") {
        let on: bool = match bool_of(inst.scratch.get("on")) {
            Some(b) => b,
            None => false,
        };
        let next: u8 = if on {
            0
        } else {
            restore
        };
        Some(Plan { body: power_body(!on, ramp), level: Some(next) })
    } else if same(cmd, "set_level") {
        let asked: u64 = u64_or_of(args.get("level"), 0);
        let level: u8 = (asked % 256) as u8;
        Some(Plan { body: level_body(level, ramp), level: Some(level) })
    } else if same(cmd, "set_cct") {
        Some(Plan { body: white_body(u64_or_of(args.get("kelvin"), 2700)), level: None })
    } else if same(cmd, "set_color") {
        Some(Plan { body: color_body(xy), level: None })
    } else if same(cmd, "ramp_start") || same(cmd, "ramp_stop") {
        let target: u8 = if same(cmd, "ramp_stop") {
            last
        } else if ramp_goes_up(args) {
            100
        } else {
            1
        };
        Some(Plan { body: level_body(target, Some(4000)), level: Some(target) })
    } else {
        None
    }
}

/// The request that commands a light, where its bridge and its id are set.
pub open spec fn light_request(inst: InstanceView, body: Json) -> Option<CallView> {
    match (inst.text("Bridge address"@), inst.text("Light id"@)) {
        (Some(bridge), Some(id)) => if bridge.len() == 0 || id.len() == 0 {
            None
        } else {
            Some(
                CallView::Http(
                    HttpRequestView::with_key(
                        "PUT"@,
                        "/clip/v2/resource/light/"@ + id,
                        key_of(inst),
                        Some(body),
                    ),
                ),
            )
        },
        _ => None,
    }
}

/// The application key, or nothing where none is set.
pub open spec fn key_of(inst: InstanceView) -> Seq<char> {
    match inst.text("Application key"@) {
        Some(key) => key,
        None => ""@,
    }
}

/// The application key, or nothing where none is set.
pub fn key(inst: &Instance) -> (r: &str)
    ensures
        r@ == key_of(inst@),
{
    match inst.text("Application key") {
        Some(key) => key,
        None => "",
    }
}

/// What a command of one light does and says.
pub open spec fn light_command(
    inst: InstanceView,
    cmd: Seq<char>,
    args: Map<Seq<char>, Json>,
    xy: Pair,
) -> (InstanceView, Seq<CallView>) {
    match light_plan(inst, cmd, args, xy) {
        None => (
            inst,
            seq![CallView::Warn { message: "hue: unhandled `"@ + cmd + "`"@ }],
        ),
        Some(plan) => match light_request(inst, plan.body) {
            None => (
                inst,
                seq![
                    CallView::Warn {
                        message: "hue: set Bridge address and Light id on this device first"@,
                    },
                ],
            ),
            Some(request) => match plan.level {
                Some(level) => (
                    inst.with_scratch(remembered(inst.scratch, level)),
                    seq![request] + stated(level) + tint_stated(1, cmd, args),
                ),
                None => (inst, seq![request] + tint_stated(1, cmd, args)),
            },
        },
    }
}

impl HueBulb {
    /// The request that commands a light, where its bridge and its id are set.
    pub fn request(inst: &Instance, body: JsonValue) -> (r: Option<HostCall>)
        ensures
            seen(r) == light_request(inst@, body@),
    {
        match (inst.text("Bridge address"), inst.text("Light id")) {
            (Some(bridge), Some(id)) => {
                if bridge.is_empty() || id.is_empty() {
                    return None;
                }
                let path = "/clip/v2/resource/light/".to_owned().concat(id);
                Some(HostCall::Http(HttpRequest::with_key("PUT", path.as_str(), key(inst), Some(body))))
            },
            _ => None,
        }
    }

    /// Report the change immediately rather than waiting for the bridge.
    ///
    /// The bulb is on a mesh; a round trip is 100-300 ms and the screen would visibly lag. The
    /// intent is stated now, and the next report corrects it if the bridge disagreed.
    pub fn optimiztic(level: u8) -> (r: Vec<HostCall>)
        ensures
            views(r@) == stated(level),
    {
        let mut out: Vec<HostCall> = Vec::new();
        out.push(HostCall::notify1(1, "power_changed", "on", JsonValue::Bool(level > 0)));
        if level > 0 {
            out.push(HostCall::notify1(1, "level_changed", "level", json_uint(level as u64)));
        }
        assert(views(out@) =~= stated(level));
        out
    }

    /// One command of one light. `xy` is the point of the CIE diagram for the hue and saturation
    /// that [`asked_color`] reads off the arguments.
    pub fn on_command(
        &self,
        inst: &mut Instance,
        _proxy: LocalId,
        cmd: &str,
        args: &Record,
        xy: Pair,
    ) -> (r: Vec<HostCall>)
        ensures
            (final(inst)@, views(r@)) == light_command(old(inst)@, cmd@, args@, xy),
    {
        let mut out: Vec<HostCall> = Vec::new();
        let chosen = match plan(inst, cmd, args, xy) {
            Some(chosen) => chosen,
            None => {
                let message = "hue: unhandled `".to_owned().concat(cmd).concat("`");
                out.push(HostCall::warn(message.as_str()));
                return out;
            },
        };
        let request = match HueBulb::request(inst, chosen.body) {
            Some(request) => request,
            None => {
                out.push(
                    HostCall::warn("hue: set Bridge address and Light id on this device first"),
                );
                return out;
            },
        };
        out.push(request);
        if let Some(level) = chosen.level {
            remember(&mut inst.scratch, level);
            let mut said = HueBulb::optimiztic(level);
            out.append(&mut said);
        }
        let mut tint = state_tint(1, cmd, args);
        out.append(&mut tint);
        out
    }
}

} // verus!
