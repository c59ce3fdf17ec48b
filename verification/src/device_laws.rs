//! What a device is, what it can do, and what it does when it is brought up.
use vstd::prelude::*;
use vstd::utf8::encode_utf8;

use crate::binary::kelvin_of;
use crate::bind::{bind_calls, onlines};
use crate::capability::{capabilities, shape};
use crate::host::{CallView, InstanceView, LocalId};
use crate::json::Json;
use crate::law_terms::{counted, held, inner, member, reads_from, tells, words_in};
use crate::report_laws::number_at;
use crate::role::{binding, role_of, Role};

verus! {

/// The words that laws tell apart are different.
proof fn lemma_words()
    ensures
        "dimmer"@.len() == 6 && "dimmer"@[0] == 'd',
        "supports_color"@.len() == 14 && "supports_color"@[0] == 's',
        "supports_cct"@.len() == 12,
        "supports_ramp"@.len() == 13,
        "ramp_rate_max_ms"@.len() == 16,
        "cct_min"@.len() == 7 && "cct_min"@[0] == 'c' && "cct_min"@[5] == 'i',
        "cct_max"@.len() == 7 && "cct_max"@[0] == 'c' && "cct_max"@[5] == 'a',
        "dimming"@.len() == 7 && "dimming"@[0] == 'd',
        "color"@.len() == 5,
        "color_temperature"@.len() == 17,
        "online"@.len() == 6 && "online"@[0] == 'o',
        "online_changed"@.len() == 14 && "online_changed"@[0] == 'o',
{
    reveal_strlit("dimmer");
    reveal_strlit("supports_color");
    reveal_strlit("supports_cct");
    reveal_strlit("supports_ramp");
    reveal_strlit("ramp_rate_max_ms");
    reveal_strlit("cct_min");
    reveal_strlit("cct_max");
    reveal_strlit("dimming");
    reveal_strlit("color");
    reveal_strlit("color_temperature");
    reveal_strlit("online");
    reveal_strlit("online_changed");
}

/// Whether a property is set to a text that is not empty.
pub open spec fn is_given(inst: InstanceView, name: Seq<char>) -> bool {
    words_in(held(inst.properties, name)) matches Some(text) && text.len() > 0
}

/// A device is a light where it has the id of one; else a motion sensor where it has the id of
/// one; else a control where it has the id of a first button or of a dial; and else the bridge.
pub proof fn law_a_device_is_what_its_ids_say(inst: InstanceView)
    ensures
        role_of(inst) == Role::Bulb <==> is_given(inst, "Light id"@),
        role_of(inst) == Role::Motion <==> !is_given(inst, "Light id"@) && is_given(
            inst,
            "Motion id"@,
        ),
        role_of(inst) == Role::Control <==> !is_given(inst, "Light id"@) && !is_given(
            inst,
            "Motion id"@,
        ) && (is_given(inst, "Button 1 id"@) || is_given(inst, "Rotary id"@)),
        role_of(inst) == Role::Bridge <==> !is_given(inst, "Light id"@) && !is_given(
            inst,
            "Motion id"@,
        ) && !is_given(inst, "Button 1 id"@) && !is_given(inst, "Rotary id"@),
{
}

/// Whether bindings are in order, each once.
pub open spec fn are_in_order(bindings: Seq<LocalId>) -> bool {
    forall|i: int, j: int|
        #![trigger bindings[i], bindings[j]]
        0 <= i < j < bindings.len() ==> bindings[i] < bindings[j]
}

/// The bridge and a light have one binding; a sensor and a control have one for each id that they
/// are given, numbered by what the id is of. They are in order.
pub proof fn law_a_device_has_a_binding_for_each_id(inst: InstanceView, id: LocalId)
    ensures
        forall|role: Role| are_in_order(#[trigger] role.spec_bindings(inst)),
        Role::Bridge.spec_bindings(inst) == seq![1u32],
        Role::Bulb.spec_bindings(inst) == seq![1u32],
        Role::Motion.spec_bindings(inst).contains(id) <==> {
            ||| id == 1 && is_given(inst, "Motion id"@)
            ||| id == 2 && is_given(inst, "Temperature id"@)
            ||| id == 3 && is_given(inst, "Light level id"@)
        },
        Role::Control.spec_bindings(inst).contains(id) <==> {
            ||| id == 1 && is_given(inst, "Button 1 id"@)
            ||| id == 2 && is_given(inst, "Button 2 id"@)
            ||| id == 3 && is_given(inst, "Button 3 id"@)
            ||| id == 4 && is_given(inst, "Button 4 id"@)
            ||| id == 5 && is_given(inst, "Rotary id"@)
        },
{
    lemma_pieces(
        binding(inst, "Motion id"@, 1),
        binding(inst, "Temperature id"@, 2),
        binding(inst, "Light level id"@, 3),
        Seq::empty(),
        Seq::empty(),
        id,
    );
    let motion = Role::Motion.spec_bindings(inst);
    assert(motion + Seq::<LocalId>::empty() + Seq::<LocalId>::empty() =~= motion);
    lemma_pieces(
        binding(inst, "Button 1 id"@, 1),
        binding(inst, "Button 2 id"@, 2),
        binding(inst, "Button 3 id"@, 3),
        binding(inst, "Button 4 id"@, 4),
        binding(inst, "Rotary id"@, 5),
        id,
    );
}

proof fn lemma_pieces(
    a: Seq<LocalId>,
    b: Seq<LocalId>,
    c: Seq<LocalId>,
    d: Seq<LocalId>,
    e: Seq<LocalId>,
    id: LocalId,
)
    requires
        a.len() == 0 || a == seq![1u32],
        b.len() == 0 || b == seq![2u32],
        c.len() == 0 || c == seq![3u32],
        d.len() == 0 || d == seq![4u32],
        e.len() == 0 || e == seq![5u32],
    ensures
        are_in_order(a + b + c + d + e),
        (a + b + c + d + e).contains(id) <==> {
            ||| id == 1 && a.len() > 0
            ||| id == 2 && b.len() > 0
            ||| id == 3 && c.len() > 0
            ||| id == 4 && d.len() > 0
            ||| id == 5 && e.len() > 0
        },
{
    let all = a + b + c + d + e;
    let (p, q, r, s) = (
        a.len() as int,
        (a.len() + b.len()) as int,
        (a.len() + b.len() + c.len()) as int,
        (a.len() + b.len() + c.len() + d.len()) as int,
    );
    if a.len() > 0 {
        assert(all[0] == 1);
    }
    if b.len() > 0 {
        assert(all[p] == 2);
    }
    if c.len() > 0 {
        assert(all[q] == 3);
    }
    if d.len() > 0 {
        assert(all[r] == 4);
    }
    if e.len() > 0 {
        assert(all[s] == 5);
    }
    assert forall|i: int| 0 <= i < all.len() implies #[trigger] all[i] == (if i < p {
        1u32
    } else if i < q {
        2u32
    } else if i < r {
        3u32
    } else if i < s {
        4u32
    } else {
        5u32
    }) by {}
    if all.contains(id) {
        let i = choose|i: int| 0 <= i < all.len() && all[i] == id;
        assert(all[i] == id);
    }
}

/// A device answers to each id that it was given as what it is, to no other, and never to an empty
/// one. The bridge answers to none.
pub proof fn law_a_device_answers_to_its_own_ids(inst: InstanceView, id: Seq<char>)
    ensures
        !Role::Bridge.spec_owns(inst, id),
        Role::Bulb.spec_owns(inst, id) <==> id.len() > 0 && held(inst.properties, "Light id"@)
            == Some(Json::Str(id)),
        Role::Motion.spec_owns(inst, id) <==> id.len() > 0 && {
            ||| held(inst.properties, "Motion id"@) == Some(Json::Str(id))
            ||| held(inst.properties, "Temperature id"@) == Some(Json::Str(id))
            ||| held(inst.properties, "Light level id"@) == Some(Json::Str(id))
        },
        Role::Control.spec_owns(inst, id) <==> id.len() > 0 && {
            ||| held(inst.properties, "Button 1 id"@) == Some(Json::Str(id))
            ||| held(inst.properties, "Button 2 id"@) == Some(Json::Str(id))
            ||| held(inst.properties, "Button 3 id"@) == Some(Json::Str(id))
            ||| held(inst.properties, "Button 4 id"@) == Some(Json::Str(id))
            ||| held(inst.properties, "Rotary id"@) == Some(Json::Str(id))
        },
{
    assert(Role::Bulb.spec_id_properties()[0] == "Light id"@);
    let motion = Role::Motion.spec_id_properties();
    assert(motion[0] == "Motion id"@ && motion[1] == "Temperature id"@ && motion[2]
        == "Light level id"@);
    let control = Role::Control.spec_id_properties();
    assert(control[0] == "Button 1 id"@ && control[1] == "Button 2 id"@ && control[2]
        == "Button 3 id"@ && control[3] == "Button 4 id"@ && control[4] == "Rotary id"@);
}

/// Whether the calls from one on bring bindings online, one after the other.
pub open spec fn come_online(calls: Seq<CallView>, bindings: Seq<LocalId>) -> bool {
    &&& bindings.len() <= calls.len()
    &&& forall|i: int|
        0 <= i < bindings.len() ==> tells(
            #[trigger] calls[i],
            bindings[i],
            "online_changed"@,
            "online"@,
            Json::Bool(true),
        )
}

proof fn lemma_online(inst: InstanceView)
    ensures
        come_online(bind_calls(inst), role_of(inst).spec_bindings(inst)),
{
    let bindings = role_of(inst).spec_bindings(inst);
    let calls = bind_calls(inst);
    assert forall|i: int| 0 <= i < bindings.len() implies tells(
        #[trigger] calls[i],
        bindings[i],
        "online_changed"@,
        "online"@,
        Json::Bool(true),
    ) by {
        assert(calls[i] == onlines(bindings)[i]);
        let args = Map::<Seq<char>, Json>::empty().insert("online"@, Json::Bool(true));
        assert(args.dom() =~= set!["online"@]);
    }
}

/// Whatever is behind the bridge, and a bridge that is not set up, only comes online, with all of
/// its bindings.
pub proof fn law_devices_come_online(inst: InstanceView)
    requires
        role_of(inst) != Role::Bridge || words_in(held(inst.properties, "Bridge address"@)) is None
            || words_in(held(inst.properties, "Application key"@)) is None,
    ensures
        come_online(bind_calls(inst), role_of(inst).spec_bindings(inst)),
        bind_calls(inst).len() == role_of(inst).spec_bindings(inst).len(),
{
    lemma_online(inst);
}

/// The bridge comes online, opens the event stream with its address and its key, asks for its own
/// identity without one, and reads each of eight collections once, with it.
pub proof fn law_the_bridge_listens_and_reads(
    inst: InstanceView,
    address: Seq<char>,
    key: Seq<char>,
)
    requires
        role_of(inst) == Role::Bridge,
        held(inst.properties, "Bridge address"@) == Some(Json::Str(address)),
        held(inst.properties, "Application key"@) == Some(Json::Str(key)),
    ensures
        ({
            let calls = bind_calls(inst);
            &&& calls.len() == 11
            &&& tells(calls[0], 1, "online_changed"@, "online"@, Json::Bool(true))
            &&& calls[1] matches CallView::Tx { control, data }
            &&& control == 0
            &&& data == encode_utf8(
                "GET /eventstream/clip/v2 HTTP/1.1\r\nHost: "@ + address
                    + "\r\nAccept: text/event-stream\r\nCache-Control: no-cache\r\nhue-application-key: "@
                    + key + "\r\n\r\n"@,
            )
            &&& calls[2] matches CallView::Http(request)
            &&& request.method == "GET"@
            &&& request.url == "/api/config"@
            &&& request.headers.len() == 0
            &&& request.body is None
            &&& reads_from(calls[3], "/clip/v2/resource/"@ + "light"@, key)
            &&& reads_from(calls[4], "/clip/v2/resource/"@ + "motion"@, key)
            &&& reads_from(calls[5], "/clip/v2/resource/"@ + "temperature"@, key)
            &&& reads_from(calls[6], "/clip/v2/resource/"@ + "light_level"@, key)
            &&& reads_from(calls[7], "/clip/v2/resource/"@ + "device_power"@, key)
            &&& reads_from(calls[8], "/clip/v2/resource/"@ + "zone"@, key)
            &&& reads_from(calls[9], "/clip/v2/resource/"@ + "room"@, key)
            &&& reads_from(calls[10], "/clip/v2/resource/"@ + "scene"@, key)
        }),
{
    lemma_online(inst);
    let bindings = role_of(inst).spec_bindings(inst);
    assert(bindings[0] == 1);
    assert(tells(
        bind_calls(inst)[0],
        bindings[0],
        "online_changed"@,
        "online"@,
        Json::Bool(true),
    ));
}

/// Whether a light is described to have a feature.
pub open spec fn is_described(light: Json, name: Seq<char>) -> bool {
    member(light, name) matches Some(Json::Object(_))
}

/// One end of the whites of a light, by the mireds of the schema, or the given one where the
/// schema names none.
pub open spec fn end_of_whites(light: Json, end: Seq<char>, otherwise: u64) -> u64 {
    match number_at(inner(inner(member(light, "color_temperature"@), "mirek_schema"@), end)) {
        Some(n) => match kelvin_of(n) {
            Some(kelvin) => kelvin as u64,
            None => otherwise,
        },
        None => otherwise,
    }
}

/// A light can be dimmed and can ramp where its dimming is described; can be colored where its
/// color is; and can be tuned where its whites are, from the warmest, which has the most mireds,
/// to the coolest. Nothing else is said of it.
pub proof fn law_a_light_can_do_what_is_described(light: Json)
    ensures
        ({
            let can = capabilities(light);
            &&& held(can, "dimmer"@) == Some(Json::Bool(is_described(light, "dimming"@)))
            &&& held(can, "supports_ramp"@) == Some(Json::Bool(is_described(light, "dimming"@)))
            &&& held(can, "supports_color"@) == Some(Json::Bool(is_described(light, "color"@)))
            &&& held(can, "supports_cct"@) == Some(
                Json::Bool(is_described(light, "color_temperature"@)),
            )
            &&& held(can, "ramp_rate_max_ms"@) == counted(6_553_000)
            &&& is_described(light, "color_temperature"@) ==> {
                &&& can.dom() == set![
                    "dimmer"@,
                    "supports_ramp"@,
                    "supports_color"@,
                    "supports_cct"@,
                    "ramp_rate_max_ms"@,
                    "cct_min"@,
                    "cct_max"@,
                ]
                &&& held(can, "cct_min"@) == counted(end_of_whites(light, "mirek_maximum"@, 2000))
                &&& held(can, "cct_max"@) == counted(end_of_whites(light, "mirek_minimum"@, 6500))
            }
            &&& !is_described(light, "color_temperature"@) ==> can.dom() == set![
                "dimmer"@,
                "supports_ramp"@,
                "supports_color"@,
                "supports_cct"@,
                "ramp_rate_max_ms"@,
            ]
        }),
{
    lemma_words();
    let can = capabilities(light);
    if is_described(light, "color_temperature"@) {
        assert(can.dom() =~= set![
            "dimmer"@,
            "supports_ramp"@,
            "supports_color"@,
            "supports_cct"@,
            "ramp_rate_max_ms"@,
            "cct_min"@,
            "cct_max"@,
        ]);
    } else {
        assert(can.dom() =~= set![
            "dimmer"@,
            "supports_ramp"@,
            "supports_color"@,
            "supports_cct"@,
            "ramp_rate_max_ms"@,
        ]);
    }
}

/// A light is called by the most that is described of it.
pub proof fn law_a_light_is_called_by_what_is_described(light: Json)
    ensures
        ({
            let color = is_described(light, "color"@);
            let white = is_described(light, "color_temperature"@);
            let dims = is_described(light, "dimming"@);
            &&& color && white ==> shape(light) == "color and tunable white"@
            &&& color && !white ==> shape(light) == "color"@
            &&& !color && white ==> shape(light) == "tunable white"@
            &&& !color && !white && dims ==> shape(light) == "dimmable"@
            &&& !color && !white && !dims ==> shape(light) == "on/off"@
        }),
{
}

} // verus!
