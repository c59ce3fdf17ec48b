//! What setup offers to choose from, and what it adopts.
use vstd::prelude::*;

use crate::adopt::{
    by_label, joined, labelled, labels_rise, law_by_label, light_candidate, light_options,
    offer_title, scene_names, titles,
};
use crate::capability::{capabilities, shape};
use crate::catalog::{AnswerView, QuestionView, ReadBackView};
use crate::flow::{adopted, bridge_row, light_list_error, question_of, step_outcome};
use crate::json::Json;
use crate::law_terms::{held, inner, list_in, member, names_in, truth_in, words_in};
use crate::setup::{CandidateView, FieldView, ImportedSceneView, NextView, PickRowView, StepView};
use crate::step_laws::{bridge_at, is_in, key_carried, or_nothing, refusal_named};
use crate::text::{before_dot, decimal};

verus! {

/// The words that laws tell apart are different.
proof fn lemma_words()
    ensures
        "start"@.len() == 5 && "start"@[0] == 's',
        "probe"@.len() == 5 && "probe"@[0] == 'p' && "probe"@[1] == 'r',
        "probed"@.len() == 6 && "probed"@[0] == 'p' && "probed"@[1] == 'r',
        "pair"@.len() == 4,
        "paired"@.len() == 6 && "paired"@[0] == 'p' && "paired"@[1] == 'a',
        "devices"@.len() == 7 && "devices"@[0] == 'd',
        "buttons"@.len() == 7 && "buttons"@[0] == 'b',
        "rooms"@.len() == 5 && "rooms"@[0] == 'r',
        "zones"@.len() == 5 && "zones"@[0] == 'z',
        "behaviors"@.len() == 9,
        "hue_scenes"@.len() == 10,
        "lights"@.len() == 6 && "lights"@[0] == 'l',
        "chosen"@.len() == 6 && "chosen"@[0] == 'c',
        "scene_choice"@.len() == 12,
        "phase"@.len() == 5 && "phase"@[0] == 'p' && "phase"@[1] == 'h',
        "address"@.len() == 7 && "address"@[0] == 'a',
{
    reveal_strlit("start");
    reveal_strlit("probe");
    reveal_strlit("probed");
    reveal_strlit("pair");
    reveal_strlit("paired");
    reveal_strlit("devices");
    reveal_strlit("buttons");
    reveal_strlit("rooms");
    reveal_strlit("zones");
    reveal_strlit("behaviors");
    reveal_strlit("hue_scenes");
    reveal_strlit("lights");
    reveal_strlit("chosen");
    reveal_strlit("scene_choice");
    reveal_strlit("phase");
    reveal_strlit("address");
}

/// Whether a row shows a bridge that announced itself: by the first part of its name, its address
/// and its model, and with its id, or that it is on this very machine.
pub open spec fn shows_bridge(row: PickRowView, found: Json) -> bool {
    let address = words_in(member(found, "address"@))->0;
    let name = match words_in(member(found, "name"@)) {
        Some(name) => name,
        None => "Hue bridge"@,
    };
    let model = match words_in(inner(member(found, "txt"@), "modelid"@)) {
        Some(model) => model,
        None => "—"@,
    };
    let id = match words_in(inner(member(found, "txt"@), "bridgeid"@)) {
        Some(id) => id,
        None => ""@,
    };
    &&& row.value == address
    &&& row.cells == seq![before_dot(name), address, model]
    &&& address.len() >= 4 && address.take(4) == "127."@ ==> row.note == "on this machine only"@
    &&& !(address.len() >= 4 && address.take(4) == "127."@) ==> row.note == if id.len() == 0 {
        ""@
    } else {
        "id "@ + id
    }
}

proof fn lemma_rows(found: Seq<Json>)
    ensures
        ({
            let rows = found.filter_map(|f: Json| bridge_row(f));
            let named = found.filter(|f: Json| words_in(member(f, "address"@)) is Some);
            &&& rows.len() == named.len()
            &&& forall|j: int| 0 <= j < rows.len() ==> shows_bridge(#[trigger] rows[j], named[j])
        }),
    decreases found.len(),
{
    let f = |f: Json| bridge_row(f);
    let p = |f: Json| words_in(member(f, "address"@)) is Some;
    let rows = found.filter_map(f);
    let named = found.filter(p);
    if found.len() == 0 {
        reveal_with_fuel(Seq::filter_map, 1);
        reveal_with_fuel(Seq::filter, 1);
    } else {
        let n = found.len() - 1;
        let rest = found.drop_last();
        lemma_rows(rest);
        found.lemma_filter_map_take_succ(f, n);
        assert(found.take(n + 1) =~= found);
        assert(found.take(n) =~= rest);
        reveal_with_fuel(Seq::filter, 1);
        let last = found.last();
        if p(last) {
            let row = f(last)->0;
            reveal_strlit("127.");
            let address = words_in(member(last, "address"@))->0;
            if address.len() >= 4 {
                assert(address.take(4) =~= address.subrange(0, 4));
            }
            assert(shows_bridge(row, last));
            assert(rows =~= rest.filter_map(f).push(row));
            assert(named =~= rest.filter(p).push(last));
            assert forall|j: int| 0 <= j < rows.len() implies shows_bridge(
                #[trigger] rows[j],
                named[j],
            ) by {
                if j < rows.len() - 1 {
                    assert(rows[j] == rest.filter_map(f)[j]);
                    assert(named[j] == rest.filter(p)[j]);
                }
            }
        } else {
            assert(rows =~= rest.filter_map(f));
            assert(named =~= rest.filter(p));
        }
    }
}

/// Whether a field asks for the address of the bridge.
pub open spec fn asks_for_address(field: FieldView) -> bool {
    &&& field.name == "address"@
    &&& field.label == "Bridge address"@
    &&& field.kind == "string"@
    &&& field.help == "for example 192.168.1.42"@
    &&& field.default is None
    &&& field.options.len() == 0
    &&& field.required
}

/// Whether the flow has to ask for an address.
pub open spec fn needs_address(state: Json, input: Map<Seq<char>, Json>) -> bool {
    ||| (is_in(state, "start"@) || words_in(member(state, "phase"@)) is None) && member(
        state,
        "browse"@,
    ) != Some(Json::Bool(true))
    ||| is_in(state, "probe"@) && words_in(member(state, "address"@)) is None && words_in(
        held(input, "address"@),
    ) is None
}

/// A flow begins, and begins again where no address was given, with every bridge that announced
/// itself at an address, in a table to pick from, in their order; an address can be typed in any
/// case. Either way the address is probed next.
pub proof fn law_the_address_is_picked_or_typed(
    state: Json,
    input: Map<Seq<char>, Json>,
    read: ReadBackView,
    answer: AnswerView,
)
    requires
        needs_address(state, input),
    ensures
        ({
            let (step, next) = step_outcome(state, input, read, answer);
            let found = list_in(member(state, "mdns_candidates"@));
            let named = found.filter(|f: Json| words_in(member(f, "address"@)) is Some);
            &&& next matches NextView::Document(doc)
            &&& names_in(doc) == set!["phase"@]
            &&& is_in(doc, "probe"@)
            &&& found.len() == 0 ==> {
                &&& step matches StepView::Form { title, body, fields }
                &&& title == "Find your Hue bridge"@
                &&& body
                    == "Nothing announced itself on the network, so enter the bridge's address. It is in the Hue app under Settings → My Hue System → the (i) beside your bridge."@
                &&& fields.len() == 1
                &&& asks_for_address(fields[0])
            }
            &&& found.len() > 0 ==> {
                &&& step matches StepView::Pick { title, body, columns, rows, field, manual }
                &&& named.len() == 1 ==> title == "Found 1 Hue bridge"@
                &&& named.len() != 1 ==> title == "Found "@ + decimal(named.len())
                    + " Hue bridges"@
                &&& body == "Pick the one to set up."@
                &&& columns == seq!["Bridge"@, "Address"@, "Model"@]
                &&& rows.len() == named.len()
                &&& forall|j: int|
                    0 <= j < rows.len() ==> shows_bridge(#[trigger] rows[j], named[j])
                &&& field == "address"@
                &&& manual is Some
                &&& asks_for_address(manual->0)
            }
        }),
{
    lemma_words();
    let (step, next) = step_outcome(state, input, read, answer);
    let found = list_in(member(state, "mdns_candidates"@));
    assert(found == state.items_at("mdns_candidates"@));
    lemma_rows(found);
    assert(names_in(next->Document_0) =~= set!["phase"@]);
    let n = found.filter(|f: Json| words_in(member(f, "address"@)) is Some).len();
    reveal_strlit("Found ");
    reveal_strlit(" Hue bridge");
    reveal_strlit(" Hue bridges");
    reveal_strlit("Found 1 Hue bridge");
    reveal_strlit("s");
    reveal_strlit("");
    reveal_strlit("1");
    if n == 1 {
        assert(decimal(1) == "1"@);
        assert("Found "@ + decimal(n) + " Hue bridge"@ + ""@ =~= "Found 1 Hue bridge"@);
    } else {
        assert("Found "@ + decimal(n) + " Hue bridge"@ + "s"@ =~= "Found "@ + decimal(n)
            + " Hue bridges"@);
    }
}

/// Whether a candidate stands for a light: under its name, as a light, with what it can do, what
/// it is reached by and its id, and in its room; and with a word of what kind of light it is, or
/// that the bridge cannot reach it.
pub open spec fn stands_for_light(
    c: CandidateView,
    light: Json,
    address: Seq<char>,
    key: Seq<char>,
    rooms: Map<Seq<char>, Json>,
) -> bool {
    let id = words_in(member(light, "id"@))->0;
    &&& c.label == match words_in(inner(member(light, "metadata"@), "name"@)) {
        Some(name) => name,
        None => "Hue light"@,
    }
    &&& c.kind == "light"@
    &&& c.driver_id == "signify.hue.light"@
    &&& c.capabilities == capabilities(light)
    &&& c.properties.dom() == set!["Bridge address"@, "Application key"@, "Light id"@]
    &&& c.properties["Bridge address"@] == Json::Str(address)
    &&& c.properties["Application key"@] == Json::Str(key)
    &&& c.properties["Light id"@] == Json::Str(id)
    &&& c.verified == match truth_in(inner(member(light, "on"@), "on"@)) {
        Some(_) => shape(light),
        None => "cannot be reached — is it powered?"@,
    }
    &&& c.room == match words_in(held(rooms, id)) {
        Some(room) => room,
        None => ""@,
    }
}

proof fn lemma_stands_for_light(
    light: Json,
    address: Seq<char>,
    key: Seq<char>,
    rooms: Map<Seq<char>, Json>,
)
    requires
        words_in(member(light, "id"@)) is Some,
    ensures
        light_candidate(light, address, key, rooms) is Some,
        stands_for_light(
            light_candidate(light, address, key, rooms)->0,
            light,
            address,
            key,
            rooms,
        ),
{
    reveal_strlit("Bridge address");
    reveal_strlit("Application key");
    reveal_strlit("Light id");
    assert("Bridge address"@.len() == 14);
    assert("Application key"@.len() == 15);
    assert("Light id"@.len() == 8);
    let c = light_candidate(light, address, key, rooms)->0;
    assert(c.properties.dom() =~= set!["Bridge address"@, "Application key"@, "Light id"@]);
}

proof fn lemma_lights(
    data: Seq<Json>,
    address: Seq<char>,
    key: Seq<char>,
    rooms: Map<Seq<char>, Json>,
)
    ensures
        ({
            let list = data.filter_map(|l: Json| light_candidate(l, address, key, rooms));
            let named = data.filter(|l: Json| words_in(member(l, "id"@)) is Some);
            &&& list.len() == named.len()
            &&& forall|j: int|
                0 <= j < list.len() ==> stands_for_light(
                    #[trigger] list[j],
                    named[j],
                    address,
                    key,
                    rooms,
                )
        }),
    decreases data.len(),
{
    let f = |l: Json| light_candidate(l, address, key, rooms);
    let p = |l: Json| words_in(member(l, "id"@)) is Some;
    let list = data.filter_map(f);
    let named = data.filter(p);
    if data.len() == 0 {
        reveal_with_fuel(Seq::filter_map, 1);
        reveal_with_fuel(Seq::filter, 1);
    } else {
        let n = data.len() - 1;
        let rest = data.drop_last();
        lemma_lights(rest, address, key, rooms);
        data.lemma_filter_map_take_succ(f, n);
        assert(data.take(n + 1) =~= data);
        assert(data.take(n) =~= rest);
        reveal_with_fuel(Seq::filter, 1);
        let last = data.last();
        if p(last) {
            lemma_stands_for_light(last, address, key, rooms);
            let c = f(last)->0;
            assert(list =~= rest.filter_map(f).push(c));
            assert(named =~= rest.filter(p).push(last));
            assert forall|j: int| 0 <= j < list.len() implies stands_for_light(
                #[trigger] list[j],
                named[j],
                address,
                key,
                rooms,
            ) by {
                if j < list.len() - 1 {
                    assert(list[j] == rest.filter_map(f)[j]);
                    assert(named[j] == rest.filter(p)[j]);
                }
            }
        } else {
            assert(list =~= rest.filter_map(f));
            assert(named =~= rest.filter(p));
        }
    }
}

/// Whether a list is another in the order of its labels: it holds the same candidates, and those
/// labelled the same as they came.
pub open spec fn is_ordered(list: Seq<CandidateView>, of: Seq<CandidateView>) -> bool {
    &&& labels_rise(list)
    &&& list.to_multiset() == of.to_multiset()
    &&& forall|label: Seq<char>| #[trigger] labelled(list, label) == labelled(of, label)
}

/// Whether candidates stand for the lights of a list that have an id, one for each.
pub open spec fn stand_for_lights(
    list: Seq<CandidateView>,
    data: Seq<Json>,
    address: Seq<char>,
    key: Seq<char>,
    rooms: Map<Seq<char>, Json>,
) -> bool {
    let named = data.filter(|l: Json| words_in(member(l, "id"@)) is Some);
    &&& list.len() == named.len()
    &&& forall|j: int|
        0 <= j < list.len() ==> stands_for_light(
            #[trigger] list[j],
            named[j],
            address,
            key,
            rooms,
        )
}

/// How many there are of each to choose from, in words.
pub open spec fn counts(lights: nat, extras: nat) -> Seq<char> {
    if extras == 0 {
        decimal(lights) + " light(s) on this bridge"@
    } else if lights == 0 && extras == 1 {
        "1 accessory on this bridge"@
    } else if lights == 0 {
        decimal(extras) + " accessories on this bridge"@
    } else if extras == 1 {
        decimal(lights) + " light(s) and 1 accessory on this bridge"@
    } else {
        decimal(lights) + " light(s) and "@ + decimal(extras) + " accessories on this bridge"@
    }
}

proof fn lemma_counts(lights: nat, extras: nat)
    ensures
        offer_title(lights, extras) == counts(lights, extras),
{
    reveal_strlit(" light(s) on this bridge");
    reveal_strlit("1 accessory on this bridge");
    reveal_strlit(" accessories on this bridge");
    reveal_strlit(" light(s) and 1 accessory on this bridge");
    reveal_strlit(" light(s) and ");
    reveal_strlit(" accessor");
    reveal_strlit("y");
    reveal_strlit("ies");
    reveal_strlit(" on this bridge");
    reveal_strlit("1");
    assert(decimal(1) == "1"@);
    assert(offer_title(lights, extras) =~= counts(lights, extras));
}

/// What is behind the bridge is offered: each light with an id, in the order of their labels, and
/// behind them the accessories as they were answered. Where the bridge refuses the list, or there
/// is nothing, the flow fails and says so.
pub proof fn law_what_is_behind_the_bridge_is_offered(
    state: Json,
    input: Map<Seq<char>, Json>,
    read: ReadBackView,
    answer: AnswerView,
)
    requires
        is_in(state, "lights"@),
    ensures
        ({
            let (step, next) = step_outcome(state, input, read, answer);
            let data = list_in(inner(held(input, "response"@), "data"@));
            let n = data.filter(|l: Json| words_in(member(l, "id"@)) is Some).len();
            &&& refusal_named(input) is Some ==> {
                &&& step == (StepView::Failed {
                    reason: "the bridge refused the light list: "@ + refusal_named(input)->0,
                })
                &&& next == NextView::Document(Json::Null)
            }
            &&& refusal_named(input) is None && n + answer.accessories.len() == 0 ==> {
                &&& step == (StepView::Failed {
                    reason: "the bridge reported nothing paired to it — add your lights and accessories in the Hue app first"@,
                })
                &&& next == NextView::Document(Json::Null)
            }
            &&& refusal_named(input) is None && n + answer.accessories.len() > 0 ==> {
                &&& step matches StepView::Choose { title, body, options, multiple }
                &&& title == counts(n, answer.accessories.len())
                &&& body == "Anything the bridge cannot reach is marked."@
                &&& multiple
                &&& options.len() == n + answer.accessories.len()
                &&& options.skip(n as int) == answer.accessories
                &&& exists|lights: Seq<CandidateView>|
                    #[trigger] stand_for_lights(
                        lights,
                        data,
                        bridge_at(state, input),
                        key_carried(state),
                        answer.rooms,
                    ) && is_ordered(options.take(n as int), lights)
            }
        }),
{
    lemma_words();
    let (step, next) = step_outcome(state, input, read, answer);
    let data = list_in(inner(held(input, "response"@), "data"@));
    let address = bridge_at(state, input);
    let key = key_carried(state);
    let named = data.filter(|l: Json| words_in(member(l, "id"@)) is Some);
    let lights = data.filter_map(|l: Json| light_candidate(l, address, key, answer.rooms));
    let errors = list_in(inner(held(input, "response"@), "errors"@));
    assert(light_list_error(held(input, "response"@)) == refusal_named(input));
    lemma_lights(data, address, key, answer.rooms);
    law_by_label(lights);
    let ordered = light_options(data, address, key, answer.rooms);
    assert(ordered == by_label(lights));
    lights.to_multiset_ensures();
    ordered.to_multiset_ensures();
    assert(ordered.len() == named.len());
    lemma_counts(named.len(), answer.accessories.len());
    assert(stand_for_lights(lights, data, address, key, answer.rooms));
    let all = ordered + answer.accessories;
    assert(all.skip(named.len() as int) =~= answer.accessories);
    assert(all.take(named.len() as int) =~= ordered);
}

/// Whether a device is a candidate without the connection that it has from the bridge.
pub open spec fn is_without_connection(device: CandidateView, c: CandidateView) -> bool {
    &&& device.label == c.label
    &&& device.kind == c.kind
    &&& device.driver_id == c.driver_id
    &&& device.capabilities == c.capabilities
    &&& device.verified == c.verified
    &&& device.room == c.room
    &&& held(device.properties, "Bridge address"@) is None
    &&& held(device.properties, "Application key"@) is None
    &&& forall|name: Seq<char>|
        name != "Bridge address"@ && name != "Application key"@ ==> #[trigger] held(
            device.properties,
            name,
        ) == held(c.properties, name)
}

/// Whether a device is the bridge itself.
pub open spec fn is_bridge(
    device: CandidateView,
    name: Seq<char>,
    address: Seq<char>,
    key: Seq<char>,
    behind: nat,
) -> bool {
    &&& device.label == name
    &&& device.kind == "bridge"@
    &&& device.driver_id == "signify.hue.bridge"@
    &&& device.capabilities.dom() == Set::<Seq<char>>::empty()
    &&& device.properties.dom() == set!["Bridge address"@, "Application key"@]
    &&& device.properties["Bridge address"@] == Json::Str(address)
    &&& device.properties["Application key"@] == Json::Str(key)
    &&& device.verified == decimal(behind) + " device(s) behind it"@
    &&& device.room.len() == 0
}

/// Whether devices are those that were chosen, and before them, unless it was there already, the
/// bridge.
pub open spec fn are_adopted(
    devices: Seq<CandidateView>,
    state: Json,
    input: Map<Seq<char>, Json>,
    chosen: Seq<CandidateView>,
) -> bool {
    let first: int = if member(state, "browse"@) == Some(Json::Bool(true)) {
        0
    } else {
        1
    };
    &&& devices.len() == chosen.len() + first
    &&& first == 1 ==> is_bridge(
        devices[0],
        match words_in(member(state, "name"@)) {
            Some(name) => name,
            None => "Hue Bridge"@,
        },
        bridge_at(state, input),
        key_carried(state),
        chosen.len(),
    )
    &&& forall|i: int|
        first <= i < devices.len() ==> is_without_connection(
            #[trigger] devices[i],
            chosen[i - first],
        )
}

proof fn lemma_adopted(state: Json, input: Map<Seq<char>, Json>, chosen: Seq<CandidateView>)
    ensures
        are_adopted(
            adopted(bridge_at(state, input), key_carried(state), state, chosen),
            state,
            input,
            chosen,
        ),
{
    reveal_strlit("Bridge address");
    reveal_strlit("Application key");
    reveal_strlit("");
    assert("Bridge address"@.len() == 14);
    assert("Application key"@.len() == 15);
    let devices = adopted(
        bridge_at(state, input),
        key_carried(state),
        state,
        chosen,
    );
    if member(state, "browse"@) != Some(Json::Bool(true)) {
        assert(devices[0].properties.dom() =~= set!["Bridge address"@, "Application key"@]);
        assert(devices[0].capabilities.dom() =~= Set::<Seq<char>>::empty());
    }
}

/// The titles of the first four scenes, with a comma between each two, and whether there are more.
pub open spec fn are_listed(names: Seq<char>, scenes: Seq<ImportedSceneView>) -> bool {
    &&& scenes.len() == 1 ==> names == scenes[0].title
    &&& scenes.len() == 2 ==> names == scenes[0].title + ", "@ + scenes[1].title
    &&& scenes.len() == 3 ==> names == scenes[0].title + ", "@ + scenes[1].title + ", "@
        + scenes[2].title
    &&& scenes.len() == 4 ==> names == scenes[0].title + ", "@ + scenes[1].title + ", "@
        + scenes[2].title + ", "@ + scenes[3].title
    &&& scenes.len() > 4 ==> names == scenes[0].title + ", "@ + scenes[1].title + ", "@
        + scenes[2].title + ", "@ + scenes[3].title + " and others"@
}

proof fn lemma_listed(scenes: Seq<ImportedSceneView>)
    requires
        scenes.len() > 0,
    ensures
        are_listed(scene_names(scenes), scenes),
{
    let all = titles(scenes);
    let few = if scenes.len() > 4 {
        all.take(4)
    } else {
        all
    };
    assert forall|k: int| 0 < k < few.len() implies #[trigger] few.take(k + 1).drop_last()
        =~= few.take(k) by {}
    assert(joined(few.take(1)) == few[0]);
    if few.len() > 1 {
        assert(few.take(2).drop_last() =~= few.take(1));
        assert(joined(few.take(2)) == few[0] + ", "@ + few[1]);
    }
    if few.len() > 2 {
        assert(few.take(3).drop_last() =~= few.take(2));
        assert(joined(few.take(3)) == few[0] + ", "@ + few[1] + ", "@ + few[2]);
    }
    if few.len() > 3 {
        assert(few.take(4).drop_last() =~= few.take(3));
        assert(joined(few.take(4)) == few[0] + ", "@ + few[1] + ", "@ + few[2] + ", "@ + few[3]);
    }
    assert(few.take(few.len() as int) =~= few);
}

/// What was chosen is adopted, with the rules that were answered for it. Where scenes were
/// answered too it is first asked whether they should come; else the flow is done.
pub proof fn law_what_was_chosen_is_adopted(
    state: Json,
    input: Map<Seq<char>, Json>,
    read: ReadBackView,
    answer: AnswerView,
)
    requires
        is_in(state, "chosen"@),
    ensures
        ({
            let (step, next) = step_outcome(state, input, read, answer);
            let n = answer.scenes.len();
            &&& n == 0 ==> {
                &&& next == NextView::Document(Json::Null)
                &&& step matches StepView::Done { devices, rules, scenes }
                &&& are_adopted(devices, state, input, read.chosen)
                &&& rules == answer.rules
                &&& scenes.len() == 0
            }
            &&& n > 0 ==> {
                &&& next matches NextView::SceneChoice { devices, rules, scenes }
                &&& are_adopted(devices, state, input, read.chosen)
                &&& rules == answer.rules
                &&& scenes == answer.scenes
                &&& step matches StepView::Form { title, body, fields }
                &&& n == 1 ==> title == "Bring over 1 scene?"@
                &&& n > 1 ==> title == "Bring over "@ + decimal(n) + " scenes?"@
                &&& exists|names: Seq<char>|
                    #[trigger] are_listed(names, answer.scenes) && body == "The bridge has "@
                        + decimal(n) + " saved — "@ + names
                        + ". They stay owned by Hue: Juno can recall them statically or dynamically, but can never edit or delete them. Skipping this changes nothing else; the lights and remotes are added either way."@
                &&& fields.len() == 1
                &&& fields[0].name == "scenes"@
                &&& fields[0].label == "Scenes"@
                &&& fields[0].kind == "choice"@
                &&& fields[0].help.len() == 0
                &&& fields[0].default == Some(Json::Str("Bring them over"@))
                &&& fields[0].options == seq!["Bring them over"@, "Leave them"@]
                &&& fields[0].required
            }
        }),
{
    lemma_words();
    lemma_adopted(state, input, read.chosen);
    reveal_strlit("");
    let n = answer.scenes.len();
    if n > 0 {
        lemma_listed(answer.scenes);
        reveal_strlit("Bring over ");
        reveal_strlit(" scene");
        reveal_strlit("s");
        reveal_strlit("?");
        reveal_strlit(" scenes?");
        reveal_strlit("Bring over 1 scene?");
        reveal_strlit("1");
        if n == 1 {
            assert(decimal(1) == "1"@);
            assert("Bring over "@ + decimal(n) + " scene"@ + ""@ + "?"@ =~= "Bring over 1 scene?"@);
        } else {
            assert("Bring over "@ + decimal(n) + " scene"@ + "s"@ + "?"@ =~= "Bring over "@
                + decimal(n) + " scenes?"@);
        }
    }
}

/// Each answer about what is paired to the bridge is put to the catalog as it came, with the
/// catalog as it is carried, and with the names of rooms where they matter.
pub proof fn law_each_answer_is_put_to_the_catalog(
    state: Json,
    input: Map<Seq<char>, Json>,
    chosen: Seq<CandidateView>,
)
    ensures
        ({
            let question = question_of(state, input, chosen);
            let catalog = list_in(member(state, "catalog"@));
            let response = held(input, "response"@);
            &&& is_in(state, "devices"@) ==> question == (QuestionView::Devices { response })
            &&& is_in(state, "buttons"@) ==> question == (QuestionView::Buttons {
                catalog,
                response,
            })
            &&& is_in(state, "rooms"@) ==> question == (QuestionView::Rooms { catalog, response })
            &&& is_in(state, "zones"@) ==> question == (QuestionView::Zones {
                catalog,
                response,
                rooms: member(state, "rooms"@),
            })
            &&& is_in(state, "behaviors"@) ==> question == (QuestionView::Behaviors {
                catalog,
                response,
                rooms: or_nothing(member(state, "rooms"@))->0,
            })
        }),
{
    lemma_words();
}

/// What is offered is asked for the lights that the bridge lists, by their ids, unless it refuses
/// to list them. What is adopted is asked for the devices and the scenes: the devices as they are
/// handed on, or, where the bridge was there already, as they were chosen. No other phase asks
/// the catalog anything.
pub proof fn law_offers_and_adoptions_are_put_to_the_catalog(
    state: Json,
    input: Map<Seq<char>, Json>,
    chosen: Seq<CandidateView>,
)
    ensures
        ({
            let question = question_of(state, input, chosen);
            let catalog = list_in(member(state, "catalog"@));
            let data = list_in(inner(held(input, "response"@), "data"@));
            let named = data.filter(|l: Json| words_in(member(l, "id"@)) is Some);
            &&& is_in(state, "lights"@) && refusal_named(input) is None ==> {
                &&& question matches QuestionView::Offer { catalog: c, lights, address, key }
                &&& c == catalog
                &&& lights.len() == named.len()
                &&& forall|j: int|
                    0 <= j < lights.len() ==> member(named[j], "id"@) == Some(
                        Json::Str(#[trigger] lights[j]),
                    )
                &&& address == bridge_at(state, input)
                &&& key == key_carried(state)
            }
            &&& is_in(state, "lights"@) && refusal_named(input) is Some ==> question
                == QuestionView::Nothing
            &&& is_in(state, "chosen"@) ==> {
                &&& question matches QuestionView::Adopt { catalog: c, devices, scenes }
                &&& c == catalog
                &&& member(state, "browse"@) == Some(Json::Bool(true)) ==> devices == chosen
                &&& member(state, "browse"@) != Some(Json::Bool(true)) ==> are_adopted(
                    devices,
                    state,
                    input,
                    chosen,
                )
                &&& scenes == member(state, "hue_scenes"@)
            }
            &&& question is Devices ==> is_in(state, "devices"@)
            &&& question is Buttons ==> is_in(state, "buttons"@)
            &&& question is Rooms ==> is_in(state, "rooms"@)
            &&& question is Zones ==> is_in(state, "zones"@)
            &&& question is Behaviors ==> is_in(state, "behaviors"@)
            &&& question is Offer ==> is_in(state, "lights"@)
            &&& question is Adopt ==> is_in(state, "chosen"@)
        }),
{
    lemma_words();
    lemma_adopted(state, input, chosen);
    let data = list_in(inner(held(input, "response"@), "data"@));
    let errors = list_in(inner(held(input, "response"@), "errors"@));
    assert(light_list_error(held(input, "response"@)) == refusal_named(input));
    lemma_ids(data);
}

proof fn lemma_ids(data: Seq<Json>)
    ensures
        ({
            let ids = data.filter_map(|light: Json| light.str_at("id"@));
            let named = data.filter(|l: Json| words_in(member(l, "id"@)) is Some);
            &&& ids.len() == named.len()
            &&& forall|j: int|
                0 <= j < ids.len() ==> member(named[j], "id"@) == Some(
                    Json::Str(#[trigger] ids[j]),
                )
        }),
    decreases data.len(),
{
    let f = |light: Json| light.str_at("id"@);
    let p = |l: Json| words_in(member(l, "id"@)) is Some;
    let ids = data.filter_map(f);
    let named = data.filter(p);
    if data.len() == 0 {
        reveal_with_fuel(Seq::filter_map, 1);
        reveal_with_fuel(Seq::filter, 1);
    } else {
        let n = data.len() - 1;
        let rest = data.drop_last();
        lemma_ids(rest);
        data.lemma_filter_map_take_succ(f, n);
        assert(data.take(n + 1) =~= data);
        assert(data.take(n) =~= rest);
        reveal_with_fuel(Seq::filter, 1);
        let last = data.last();
        if p(last) {
            assert(ids =~= rest.filter_map(f).push(f(last)->0));
            assert(named =~= rest.filter(p).push(last));
            assert forall|j: int| 0 <= j < ids.len() implies member(named[j], "id"@) == Some(
                Json::Str(#[trigger] ids[j]),
            ) by {
                if j < ids.len() - 1 {
                    assert(ids[j] == rest.filter_map(f)[j]);
                    assert(named[j] == rest.filter(p)[j]);
                }
            }
        } else {
            assert(ids =~= rest.filter_map(f));
            assert(named =~= rest.filter(p));
        }
    }
}

} // verus!
