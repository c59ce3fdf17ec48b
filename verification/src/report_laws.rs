//! What a device makes of the reports of the bridge.
use vstd::prelude::*;

use crate::answer_laws::reads_again;
use crate::binary::percent_of;
use crate::codec::parsed_json;
use crate::event::{
    event_outcome, frame_outcome, heard, heard_all, heard_updates, is_of, level_reported,
    names_type, reading, report_effects, report_scratch, reread, touches, update_kind,
};
use crate::event_laws::law_hearing_keeps_the_role;
use crate::host::{notify1, CallView, EffectView, InstanceView};
use crate::json::{Json, Number};
use crate::law_terms::{count_in, counted, held, inner, list_in, member, tells, truth_in, words_in};
use crate::role::{role_of, Role};

verus! {

/// The words that laws tell apart are different.
proof fn lemma_words()
    ensures
        "on"@.len() == 2 && "on"@[0] == 'o',
        "level"@.len() == 5 && "level"@[0] == 'l',
        "dimming"@.len() == 7,
        "brightness"@.len() == 10,
        "color_temperature"@.len() == 17,
        "mirek"@.len() == 5 && "mirek"@[0] == 'm',
        "color"@.len() == 5 && "color"@[0] == 'c',
        "xy"@.len() == 2 && "xy"@[0] == 'x',
        "x"@.len() == 1 && "x"@[0] == 'x',
        "y"@.len() == 1 && "y"@[0] == 'y',
        "power_changed"@.len() == 13 && "power_changed"@[0] == 'p',
        "level_changed"@.len() == 13 && "level_changed"@[0] == 'l',
        "cct_changed"@.len() == 11,
        "kelvin"@.len() == 6 && "kelvin"@[0] == 'k',
        "id"@.len() == 2 && "id"@[0] == 'i',
        "name"@.len() == 4 && "name"@[0] == 'n',
        "kind"@.len() == 4 && "kind"@[0] == 'k',
        "device_added"@.len() == 12,
        "type"@.len() == 4 && "type"@[0] == 't',
        "device"@.len() == 6 && "device"@[0] == 'd' && "device"@[2] == 'v',
        "add"@.len() == 3,
        "delete"@.len() == 6 && "delete"@[0] == 'd' && "delete"@[2] == 'l',
        "update"@.len() == 6 && "update"@[0] == 'u',
        "rx"@.len() == 2 && "rx"@[0] == 'r',
        "http_response"@.len() == 13 && "http_response"@[0] == 'h',
        "data"@.len() == 4 && "data"@[0] == 'd',
{
    reveal_strlit("on");
    reveal_strlit("level");
    reveal_strlit("dimming");
    reveal_strlit("brightness");
    reveal_strlit("color_temperature");
    reveal_strlit("mirek");
    reveal_strlit("color");
    reveal_strlit("xy");
    reveal_strlit("x");
    reveal_strlit("y");
    reveal_strlit("power_changed");
    reveal_strlit("level_changed");
    reveal_strlit("cct_changed");
    reveal_strlit("kelvin");
    reveal_strlit("id");
    reveal_strlit("name");
    reveal_strlit("kind");
    reveal_strlit("device_added");
    reveal_strlit("type");
    reveal_strlit("device");
    reveal_strlit("add");
    reveal_strlit("delete");
    reveal_strlit("update");
    reveal_strlit("rx");
    reveal_strlit("http_response");
    reveal_strlit("data");
}

/// Whether an effect tells the host one value.
pub open spec fn tells_of(
    effect: EffectView,
    event: Seq<char>,
    name: Seq<char>,
    value: Json,
) -> bool {
    effect matches EffectView::Call(call) && tells(call, 1, event, name, value)
}

/// Whether an effect tells of an event.
pub open spec fn is_told(effect: EffectView, event: Seq<char>) -> bool {
    effect matches EffectView::Call(CallView::Notify { name, .. }) && name == event
}

/// The number that a value is, where it is one.
pub open spec fn number_at(o: Option<Json>) -> Option<Number> {
    match o {
        Some(Json::Number(n)) => Some(n),
        _ => None,
    }
}

/// The brightness that a report names.
pub open spec fn brightness_named(light: Json) -> Option<Number> {
    number_at(inner(member(light, "dimming"@), "brightness"@))
}

/// The power that a report names, or that was known before it.
pub open spec fn power_known(scratch: Map<Seq<char>, Json>, light: Json) -> Option<bool> {
    match truth_in(inner(member(light, "on"@), "on"@)) {
        Some(on) => Some(on),
        None => truth_in(held(scratch, "on"@)),
    }
}

/// The mireds that a report names.
pub open spec fn mireds_named(light: Json) -> Option<u64> {
    count_in(inner(member(light, "color_temperature"@), "mirek"@))
}

proof fn lemma_tells(event: Seq<char>, name: Seq<char>, value: Json)
    ensures
        tells_of(EffectView::Call(notify1(1, event, name, value)), event, name, value),
{
    let args = Map::<Seq<char>, Json>::empty().insert(name, value);
    assert(args.dom() =~= set![name]);
}

/// A report is first handed on for its effects. Then the power is told where it is known; then the
/// level, which is the brightness that the report names, rounded, or the one that was known
/// before; then the white and the color where the report names them. Nothing else is told.
/// `a`, `b`, `c` and `d` are the number of effects up to and with each.
pub proof fn law_a_report_is_told(
    scratch: Map<Seq<char>, Json>,
    light: Json,
    level: Option<u64>,
    a: int,
    b: int,
    c: int,
    d: int,
)
    requires
        level == match brightness_named(light) {
            Some(n) => Some(percent_of(n) as u64),
            None => match (power_known(scratch, light), count_in(held(scratch, "level"@))) {
                (None, _) => None,
                (Some(_), Some(level)) => Some(level),
                (Some(_), None) => Some(100u64),
            },
        },
        a == 1 + if power_known(scratch, light) is Some {
            1int
        } else {
            0int
        },
        b == a + if level is Some {
            1int
        } else {
            0int
        },
        c == b + if mireds_named(light) matches Some(mirek) && mirek > 0 {
            1int
        } else {
            0int
        },
        d == c + if number_at(inner(inner(member(light, "color"@), "xy"@), "x"@)) is Some
            && number_at(inner(inner(member(light, "color"@), "xy"@), "y"@)) is Some {
            1int
        } else {
            0int
        },
    ensures
        report_effects(scratch, light).len() == d,
        report_effects(scratch, light)[0] == EffectView::CacheEffects(light),
        power_known(scratch, light) matches Some(on) ==> tells_of(
            report_effects(scratch, light)[a - 1],
            "power_changed"@,
            "on"@,
            Json::Bool(on),
        ),
        level matches Some(level) ==> tells_of(
            report_effects(scratch, light)[b - 1],
            "level_changed"@,
            "level"@,
            Json::Number(Number::PosInt(level)),
        ),
        c > b ==> exists|kelvin: u64|
            kelvin * mireds_named(light)->0 <= 1_000_000 < (kelvin + 1) * mireds_named(light)->0
                && #[trigger] tells_of(
                report_effects(scratch, light)[c - 1],
                "cct_changed"@,
                "kelvin"@,
                Json::Number(Number::PosInt(kelvin)),
            ),
        d > c ==> report_effects(scratch, light)[d - 1] == (EffectView::Color {
            x: number_at(inner(inner(member(light, "color"@), "xy"@), "x"@))->0,
            y: number_at(inner(inner(member(light, "color"@), "xy"@), "y"@))->0,
        }),
{
    lemma_words();
    let effects = report_effects(scratch, light);
    if let Some(on) = power_known(scratch, light) {
        lemma_tells("power_changed"@, "on"@, Json::Bool(on));
    }
    if let Some(level) = level {
        lemma_tells("level_changed"@, "level"@, Json::Number(Number::PosInt(level)));
    }
    if let Some(mirek) = mireds_named(light) {
        if mirek > 0 {
            let kelvin = (1_000_000int / mirek as int) as u64;
            assert(kelvin * mirek <= 1_000_000 < (kelvin + 1) * mirek) by (nonlinear_arith)
                requires
                    mirek > 0,
                    kelvin == 1_000_000int / mirek as int,
            ;
            lemma_tells("cct_changed"@, "kelvin"@, Json::Number(Number::PosInt(kelvin)));
            assert(tells_of(
                effects[c - 1],
                "cct_changed"@,
                "kelvin"@,
                Json::Number(Number::PosInt(kelvin)),
            ));
        }
    }
}

/// Whenever a report names a brightness, whatever it says or is remembered of power, the level is
/// told exactly once, it is that brightness rounded, and it is the one that is then remembered.
pub proof fn law_a_reported_brightness_is_told_and_remembered(
    scratch: Map<Seq<char>, Json>,
    light: Json,
    n: Number,
)
    requires
        brightness_named(light) == Some(n),
    ensures
        held(report_scratch(scratch, light), "level"@) == counted(percent_of(n) as u64),
        exists|i: int|
            {
                &&& 0 <= i < report_effects(scratch, light).len()
                &&& tells_of(
                    #[trigger] report_effects(scratch, light)[i],
                    "level_changed"@,
                    "level"@,
                    Json::Number(Number::PosInt(percent_of(n) as u64)),
                )
                &&& forall|j: int|
                    0 <= j < report_effects(scratch, light).len() && is_told(
                        #[trigger] report_effects(scratch, light)[j],
                        "level_changed"@,
                    ) ==> j == i
            },
{
    lemma_words();
    lemma_told_once(scratch, light, Some(percent_of(n) as u64));
}

/// A report that names no brightness tells the level that is remembered, 100 where none is, once,
/// wherever the power is known; and none where it is not.
pub proof fn law_without_a_brightness_the_remembered_one_is_told(
    scratch: Map<Seq<char>, Json>,
    light: Json,
    level: u64,
)
    requires
        brightness_named(light) is None,
        level == match count_in(held(scratch, "level"@)) {
            Some(level) => level,
            None => 100,
        },
    ensures
        power_known(scratch, light) is Some ==> held(report_scratch(scratch, light), "level"@)
            == counted(level),
        power_known(scratch, light) is None ==> held(report_scratch(scratch, light), "level"@)
            == held(scratch, "level"@),
        power_known(scratch, light) is Some ==> exists|i: int|
            {
                &&& 0 <= i < report_effects(scratch, light).len()
                &&& tells_of(
                    #[trigger] report_effects(scratch, light)[i],
                    "level_changed"@,
                    "level"@,
                    Json::Number(Number::PosInt(level)),
                )
                &&& forall|j: int|
                    0 <= j < report_effects(scratch, light).len() && is_told(
                        #[trigger] report_effects(scratch, light)[j],
                        "level_changed"@,
                    ) ==> j == i
            },
        power_known(scratch, light) is None ==> forall|j: int|
            0 <= j < report_effects(scratch, light).len() ==> !is_told(
                #[trigger] report_effects(scratch, light)[j],
                "level_changed"@,
            ),
{
    lemma_words();
    if power_known(scratch, light) is Some {
        lemma_told_once(scratch, light, Some(level));
    } else {
        lemma_told_once(scratch, light, None);
    }
}

proof fn lemma_told_once(scratch: Map<Seq<char>, Json>, light: Json, level: Option<u64>)
    requires
        level == level_reported(scratch, light),
    ensures
        level matches Some(level) ==> exists|i: int|
            {
                &&& 0 <= i < report_effects(scratch, light).len()
                &&& tells_of(
                    #[trigger] report_effects(scratch, light)[i],
                    "level_changed"@,
                    "level"@,
                    Json::Number(Number::PosInt(level)),
                )
                &&& forall|j: int|
                    0 <= j < report_effects(scratch, light).len() && is_told(
                        #[trigger] report_effects(scratch, light)[j],
                        "level_changed"@,
                    ) ==> j == i
            },
        level is None ==> forall|j: int|
            0 <= j < report_effects(scratch, light).len() ==> !is_told(
                #[trigger] report_effects(scratch, light)[j],
                "level_changed"@,
            ),
{
    lemma_words();
    let effects = report_effects(scratch, light);
    let i: int = if power_known(scratch, light) is Some {
        2
    } else {
        1
    };
    assert forall|j: int|
        0 <= j < effects.len() && is_told(#[trigger] effects[j], "level_changed"@) implies j == i
        && level is Some by {}
    if let Some(level) = level {
        lemma_tells("level_changed"@, "level"@, Json::Number(Number::PosInt(level)));
        assert(tells_of(
            effects[i],
            "level_changed"@,
            "level"@,
            Json::Number(Number::PosInt(level)),
        ));
    }
}

/// The power that a report names is remembered, and so is nothing but power and level.
pub proof fn law_a_reported_power_is_remembered(scratch: Map<Seq<char>, Json>, light: Json)
    ensures
        held(report_scratch(scratch, light), "on"@) == match power_known(scratch, light) {
            Some(on) => Some(Json::Bool(on)),
            None => held(scratch, "on"@),
        },
        forall|name: Seq<char>|
            name != "on"@ && name != "level"@ ==> #[trigger] held(
                report_scratch(scratch, light),
                name,
            ) == held(scratch, name),
{
    lemma_words();
}

/// A bulb takes any report of its own light, whatever kind of change it is said to be, other than
/// that the light is new or gone.
pub proof fn law_a_bulb_hears_its_own_light(
    inst: InstanceView,
    kind: Seq<char>,
    resource: Json,
    id: Seq<char>,
)
    requires
        role_of(inst) == Role::Bulb,
        kind != "add"@,
        kind != "delete"@,
        held(inst.properties, "Light id"@) == Some(Json::Str(id)),
        member(resource, "id"@) == Some(Json::Str(id)),
    ensures
        ({
            let (after, effects) = heard(inst, kind, resource);
            &&& after.device == inst.device
            &&& after.properties == inst.properties
            &&& after.scratch == report_scratch(inst.scratch, resource)
            &&& effects == report_effects(inst.scratch, resource)
        }),
{
    lemma_words();
}

/// A sensor and a control hand every report on, as it is, and remember nothing of it; the bridge
/// makes nothing of reports.
pub proof fn law_reports_are_handed_on(inst: InstanceView, kind: Seq<char>, resource: Json)
    requires
        kind != "add"@,
        kind != "delete"@,
    ensures
        role_of(inst) == Role::Motion ==> heard(inst, kind, resource) == (
            inst,
            seq![EffectView::Sensor(resource)],
        ),
        role_of(inst) == Role::Control ==> heard(inst, kind, resource) == (
            inst,
            seq![EffectView::Control(resource)],
        ),
        role_of(inst) == Role::Bridge ==> heard(inst, kind, resource) == (
            inst,
            Seq::<EffectView>::empty(),
        ),
{
    lemma_words();
}

/// The bridge offers a device that is added under its id, by the name somebody gave it, else its
/// product's name, else its id, and says what kind of product it is, where that is known.
pub proof fn law_an_added_device_is_offered(
    inst: InstanceView,
    resource: Json,
    id: Seq<char>,
    name: Seq<char>,
    kind: Seq<char>,
)
    requires
        role_of(inst) == Role::Bridge,
        member(resource, "type"@) == Some(Json::Str("device"@)),
        member(resource, "id"@) == Some(Json::Str(id)),
        name == match (
            words_in(inner(member(resource, "metadata"@), "name"@)),
            words_in(inner(member(resource, "product_data"@), "product_name"@)),
        ) {
            (Some(name), _) => name,
            (None, Some(name)) => name,
            (None, None) => id,
        },
        kind == match words_in(inner(member(resource, "product_data"@), "product_archetype"@)) {
            Some(kind) => kind,
            None => ""@,
        },
    ensures
        ({
            let (after, effects) = heard(inst, "add"@, resource);
            &&& after == inst
            &&& effects.len() == 1
            &&& effects[0] matches EffectView::Call(
                CallView::Notify { proxy: binding, name: event, args },
            )
            &&& binding == 1
            &&& event == "device_added"@
            &&& args.dom() == set!["id"@, "name"@, "kind"@]
            &&& args["id"@] == Json::Str(id)
            &&& args["name"@] == Json::Str(name)
            &&& args["kind"@] == Json::Str(kind)
        }),
{
    lemma_words();
    let args = Map::<Seq<char>, Json>::empty().insert("id"@, Json::Str(id)).insert(
        "name"@,
        Json::Str(name),
    ).insert("kind"@, Json::Str(kind));
    assert(args.dom() =~= set!["id"@, "name"@, "kind"@]);
    let effects = heard(inst, "add"@, resource).1;
    assert(effects[0] == EffectView::Call(
        CallView::Notify { proxy: 1, name: "device_added"@, args },
    ));
}

/// What is added without an id, or is no device, is not offered; and nobody but the bridge makes
/// anything of an addition.
pub proof fn law_nothing_else_is_offered(inst: InstanceView, resource: Json)
    requires
        role_of(inst) != Role::Bridge || member(resource, "type"@) != Some(Json::Str("device"@))
            || words_in(member(resource, "id"@)) is None,
    ensures
        heard(inst, "add"@, resource).0 == inst,
        heard(inst, "add"@, resource).1.len() == 0,
{
}

/// A deletion of a resource that a device answers to, and no other, makes it say that it is gone,
/// and why. It changes nothing.
pub proof fn law_a_deleted_device_says_why_it_is_gone(
    inst: InstanceView,
    resource: Json,
)
    ensures
        heard(inst, "delete"@, resource).0 == inst,
        words_in(member(resource, "id"@)) matches Some(id) && role_of(inst).spec_owns(inst, id)
            ==> heard(inst, "delete"@, resource).1 == seq![
            EffectView::Call(CallView::Gone { reason: "unpaired at the Hue bridge"@ }),
        ],
        !(words_in(member(resource, "id"@)) matches Some(id) && role_of(inst).spec_owns(inst, id))
            ==> heard(inst, "delete"@, resource).1.len() == 0,
{
    lemma_words();
}

/// Resources are heard one after the other: each by the device as the ones before have left it,
/// and what is done for each follows what is done for those.
pub proof fn law_resources_are_heard_in_order(
    inst: InstanceView,
    kind: Seq<char>,
    a: Seq<Json>,
    b: Seq<Json>,
    one: Json,
)
    ensures
        heard_all(inst, kind, Seq::empty()) == (inst, Seq::<EffectView>::empty()),
        heard_all(inst, kind, seq![one]) == heard(inst, kind, one),
        ({
            let (between, first) = heard_all(inst, kind, a);
            let (after, second) = heard_all(between, kind, b);
            heard_all(inst, kind, a + b) == (after, first + second)
        }),
    decreases b.len(),
{
    let single = seq![one];
    assert(single.drop_last() =~= Seq::<Json>::empty());
    assert(heard_all(inst, kind, single.drop_last()) == (inst, Seq::<EffectView>::empty()));
    assert(Seq::<EffectView>::empty() + heard(inst, kind, one).1 =~= heard(inst, kind, one).1);
    let (between, first) = heard_all(inst, kind, a);
    if b.len() == 0 {
        assert(a + b =~= a);
        assert(first + Seq::<EffectView>::empty() =~= first);
    } else {
        law_resources_are_heard_in_order(inst, kind, a, b.drop_last(), one);
        assert((a + b).drop_last() =~= a + b.drop_last());
        let (after, second) = heard_all(between, kind, b.drop_last());
        let more = heard(after, kind, b.last()).1;
        assert((first + second) + more =~= first + (second + more));
    }
}

/// Updates are heard one after the other, each with the resources that it lists, as the kind of
/// change that it says, which is a change where it does not say.
pub proof fn law_updates_are_heard_in_order(
    inst: InstanceView,
    a: Seq<Json>,
    b: Seq<Json>,
    one: Json,
)
    ensures
        heard_updates(inst, Seq::empty()) == (inst, Seq::<EffectView>::empty()),
        heard_updates(inst, seq![one]) == heard_all(
            inst,
            match words_in(member(one, "type"@)) {
                Some(kind) => kind,
                None => "update"@,
            },
            list_in(member(one, "data"@)),
        ),
        ({
            let (between, first) = heard_updates(inst, a);
            let (after, second) = heard_updates(between, b);
            heard_updates(inst, a + b) == (after, first + second)
        }),
    decreases b.len(),
{
    let single = seq![one];
    assert(single.drop_last() =~= Seq::<Json>::empty());
    assert(heard_updates(inst, single.drop_last()) == (inst, Seq::<EffectView>::empty()));
    let alone = heard_all(
        inst,
        update_kind(one),
        list_in(member(one, "data"@)),
    ).1;
    assert(Seq::<EffectView>::empty() + alone =~= alone);
    let (between, first) = heard_updates(inst, a);
    if b.len() == 0 {
        assert(a + b =~= a);
        assert(first + Seq::<EffectView>::empty() =~= first);
    } else {
        law_updates_are_heard_in_order(inst, a, b.drop_last(), one);
        assert((a + b).drop_last() =~= a + b.drop_last());
        let (after, second) = heard_updates(between, b.drop_last());
        let last = b.last();
        let more = heard_all(
            after,
            update_kind(last),
            last.items_at("data"@),
        ).1;
        assert((first + second) + more =~= first + (second + more));
    }
}

/// Whether a frame names a resource of a type, in its update `u`, at the place `r`.
pub open spec fn names_at(frame: Json, rtype: Seq<char>, u: int, r: int) -> bool {
    let update = list_in(Some(frame))[u];
    let resource = list_in(member(update, "data"@))[r];
    &&& 0 <= u < list_in(Some(frame)).len()
    &&& 0 <= r < list_in(member(update, "data"@)).len()
    &&& member(resource, "type"@) == Some(Json::Str(rtype)) || member(resource, "rtype"@) == Some(
        Json::Str(rtype),
    )
}

proof fn lemma_touches(frame: Json, rtype: Seq<char>)
    ensures
        touches(list_in(Some(frame)), rtype) <==> exists|u: int, r: int|
            #[trigger] names_at(frame, rtype, u, r),
{
    let updates = list_in(Some(frame));
    if touches(updates, rtype) {
        let u = choose|u: int| 0 <= u < updates.len() && names_type(#[trigger] updates[u], rtype);
        let data = updates[u].items_at("data"@);
        let r = choose|r: int| 0 <= r < data.len() && is_of(#[trigger] data[r], rtype);
        assert(names_at(frame, rtype, u, r));
    }
    if exists|u: int, r: int| #[trigger] names_at(frame, rtype, u, r) {
        let (u, r) = choose|u: int, r: int| #[trigger] names_at(frame, rtype, u, r);
        let data = updates[u].items_at("data"@);
        assert(is_of(data[r], rtype));
        assert(names_type(updates[u], rtype));
    }
}

/// After a frame the bridge reads the zones, the scenes and the rooms again, in this order, each
/// where the frame names one. `zones`, `scenes` and `rooms` are what is done for each.
pub proof fn law_a_frame_makes_the_bridge_read_again(
    inst: InstanceView,
    frame: Json,
    zones: Seq<EffectView>,
    scenes: Seq<EffectView>,
    rooms: Seq<EffectView>,
)
    requires
        role_of(inst) == Role::Bridge,
        if exists|u: int, r: int| #[trigger] names_at(frame, "zone"@, u, r) {
            zones == reading(inst, "zone"@)
        } else {
            zones.len() == 0
        },
        if exists|u: int, r: int| #[trigger] names_at(frame, "scene"@, u, r) {
            scenes == reading(inst, "scene"@)
        } else {
            scenes.len() == 0
        },
        if exists|u: int, r: int| #[trigger] names_at(frame, "room"@, u, r) {
            rooms == reading(inst, "room"@)
        } else {
            rooms.len() == 0
        },
    ensures
        frame_outcome(inst, frame).0 == inst,
        frame_outcome(inst, frame).1 == heard_updates(inst, list_in(Some(frame))).1 + zones + scenes
            + rooms,
{
    lemma_touches(frame, "zone"@);
    lemma_touches(frame, "scene"@);
    lemma_touches(frame, "room"@);
    let updates = list_in(Some(frame));
    lemma_the_bridge_stays(inst, updates);
    assert(reread(inst, updates, "zone"@) =~= zones);
    assert(reread(inst, updates, "scene"@) =~= scenes);
    assert(reread(inst, updates, "room"@) =~= rooms);
}

/// A read of a collection is one request to the bridge, with the key, where its address is set.
pub proof fn law_a_collection_is_read_by_its_name(inst: InstanceView, rtype: Seq<char>)
    ensures
        reads_again(inst, reading(inst, rtype), rtype),
{
}

proof fn lemma_the_bridge_stays(inst: InstanceView, updates: Seq<Json>)
    requires
        role_of(inst) == Role::Bridge,
    ensures
        heard_updates(inst, updates).0 == inst,
    decreases updates.len(),
{
    if updates.len() > 0 {
        lemma_the_bridge_stays(inst, updates.drop_last());
        let last = updates.last();
        lemma_the_bridge_stays_so(
            inst,
            update_kind(last),
            last.items_at("data"@),
        );
    }
}

proof fn lemma_the_bridge_stays_so(inst: InstanceView, kind: Seq<char>, data: Seq<Json>)
    requires
        role_of(inst) == Role::Bridge,
    ensures
        heard_all(inst, kind, data).0 == inst,
    decreases data.len(),
{
    if data.len() > 0 {
        lemma_the_bridge_stays_so(inst, kind, data.drop_last());
    }
}

proof fn lemma_the_role_stays(inst: InstanceView, updates: Seq<Json>)
    ensures
        role_of(heard_updates(inst, updates).0) == role_of(inst),
    decreases updates.len(),
{
    if updates.len() > 0 {
        lemma_the_role_stays(inst, updates.drop_last());
        let last = updates.last();
        lemma_the_role_stays_so(
            heard_updates(inst, updates.drop_last()).0,
            update_kind(last),
            last.items_at("data"@),
        );
    }
}

proof fn lemma_the_role_stays_so(inst: InstanceView, kind: Seq<char>, data: Seq<Json>)
    ensures
        role_of(heard_all(inst, kind, data).0) == role_of(inst),
    decreases data.len(),
{
    if data.len() > 0 {
        lemma_the_role_stays_so(inst, kind, data.drop_last());
        law_hearing_keeps_the_role(
            heard_all(inst, kind, data.drop_last()).0,
            kind,
            data.last(),
        );
    }
}

/// A frame means to any other device what its updates do.
pub proof fn law_a_frame_is_its_updates(inst: InstanceView, frame: Json)
    requires
        role_of(inst) != Role::Bridge,
    ensures
        frame_outcome(inst, frame) == heard_updates(inst, list_in(Some(frame))),
{
    lemma_the_role_stays(inst, list_in(Some(frame)));
    let done = heard_updates(inst, list_in(Some(frame))).1;
    let none = Seq::<EffectView>::empty();
    assert(done + none + none + none =~= done);
}

/// What comes over the stream is a frame where it is a document. An answer is to a device behind
/// the bridge a report of each resource that it lists. No other event means anything.
pub proof fn law_what_events_mean(
    inst: InstanceView,
    note: Seq<char>,
    args: Map<Seq<char>, Json>,
    scene_waits: bool,
)
    ensures
        words_in(held(args, "data"@)) matches Some(text) && parsed_json(text) is Some
            ==> event_outcome(inst, "rx"@, args, scene_waits) == frame_outcome(
            inst,
            parsed_json(words_in(held(args, "data"@))->0)->0,
        ),
        !(words_in(held(args, "data"@)) matches Some(text) && parsed_json(text) is Some)
            ==> event_outcome(inst, "rx"@, args, scene_waits) == (
            inst,
            Seq::<EffectView>::empty(),
        ),
        role_of(inst) != Role::Bridge ==> event_outcome(inst, "http_response"@, args, scene_waits)
            == heard_all(inst, "update"@, list_in(inner(held(args, "body"@), "data"@))),
        note != "rx"@ && note != "http_response"@ ==> event_outcome(inst, note, args, scene_waits)
            == (inst, Seq::<EffectView>::empty()),
{
    lemma_words();
}

} // verus!
