//! What each step of setup asks for, shows and carries on.
use vstd::prelude::*;

use crate::catalog::{AnswerView, ReadBackView};
use crate::codec::written_json;
use crate::flow::{first_item, key_request, step_outcome};
use crate::host::HttpRequestView;
use crate::json::{get_in, Json, Number};
use crate::law_terms::{count_in, held, inner, list_in, member, names_in, words_in};
use crate::setup::{NextView, StepView};
use crate::text::{has_part, trimmed};

verus! {

/// The words that laws tell apart are different.
proof fn lemma_words()
    ensures
        "start"@.len() == 5 && "start"@[0] == 's',
        "probe"@.len() == 5 && "probe"@[0] == 'p' && "probe"@[1] == 'r',
        "probed"@.len() == 6 && "probed"@[0] == 'p' && "probed"@[1] == 'r',
        "pair"@.len() == 4 && "pair"@[0] == 'p',
        "paired"@.len() == 6 && "paired"@[0] == 'p' && "paired"@[1] == 'a' && "paired"@[2] == 'i',
        "devices"@.len() == 7 && "devices"@[0] == 'd',
        "buttons"@.len() == 7 && "buttons"@[0] == 'b',
        "rooms"@.len() == 5 && "rooms"@[0] == 'r',
        "zones"@.len() == 5 && "zones"@[0] == 'z',
        "behaviors"@.len() == 9,
        "hue_scenes"@.len() == 10 && "hue_scenes"@[0] == 'h',
        "lights"@.len() == 6 && "lights"@[0] == 'l',
        "chosen"@.len() == 6 && "chosen"@[0] == 'c',
        "scene_choice"@.len() == 12,
        "phase"@.len() == 5 && "phase"@[0] == 'p' && "phase"@[1] == 'h',
        "address"@.len() == 7 && "address"@[0] == 'a' && "address"@[1] == 'd',
        "key"@.len() == 3,
        "browse"@.len() == 6 && "browse"@[0] == 'b',
        "parent"@.len() == 6 && "parent"@[0] == 'p' && "parent"@[1] == 'a' && "parent"@[2] == 'r',
        "catalog"@.len() == 7 && "catalog"@[0] == 'c',
        "name"@.len() == 4 && "name"@[0] == 'n',
        "attempt"@.len() == 7 && "attempt"@[0] == 'a' && "attempt"@[1] == 't',
        "devicetype"@.len() == 10 && "devicetype"@[0] == 'd',
        "generateclientkey"@.len() == 17,
{
    reveal_strlit("start");
    reveal_strlit("probe");
    reveal_strlit("probed");
    reveal_strlit("pair");
    reveal_strlit("paired");
    reveal_strlit("devices");
    reveal_strlit("buttons");
    reveal_strlit("rooms");
    reveal_strlit("zones");
    reveal_strlit("behaviors");
    reveal_strlit("hue_scenes");
    reveal_strlit("lights");
    reveal_strlit("chosen");
    reveal_strlit("scene_choice");
    reveal_strlit("phase");
    reveal_strlit("address");
    reveal_strlit("key");
    reveal_strlit("browse");
    reveal_strlit("parent");
    reveal_strlit("catalog");
    reveal_strlit("name");
    reveal_strlit("attempt");
    reveal_strlit("devicetype");
    reveal_strlit("generateclientkey");
}

/// Whether the state is in a phase.
pub open spec fn is_in(state: Json, phase: Seq<char>) -> bool {
    member(state, "phase"@) == Some(Json::Str(phase))
}

/// The address of the bridge: the one carried, else the one typed, without the white space around
/// it, else nothing.
pub open spec fn bridge_at(state: Json, input: Map<Seq<char>, Json>) -> Seq<char> {
    match (words_in(member(state, "address"@)), words_in(held(input, "address"@))) {
        (Some(address), _) => address,
        (None, Some(typed)) => trimmed(typed),
        (None, None) => ""@,
    }
}

/// The key that is carried, or nothing.
pub open spec fn key_carried(state: Json) -> Seq<char> {
    match words_in(member(state, "key"@)) {
        Some(key) => key,
        None => ""@,
    }
}

/// What is carried on where something is to be, and is not there.
pub open spec fn or_nothing(o: Option<Json>) -> Option<Json> {
    match o {
        Some(doc) => Some(doc),
        None => Some(Json::Null),
    }
}

/// Whether a step reads one collection of the bridge with the key.
pub open spec fn reads_collection(
    step: StepView,
    address: Seq<char>,
    key: Seq<char>,
    collection: Seq<char>,
    what: Seq<char>,
) -> bool {
    &&& step matches StepView::Fetch { request, note }
    &&& request.method == "GET"@
    &&& request.url == "https://"@ + address + "/clip/v2/resource/"@ + collection
    &&& request.headers == seq![("hue-application-key"@, key)]
    &&& request.body is None
    &&& note == what
}

/// Whether a document carries on the connection, and what is being browsed, into a phase.
pub open spec fn carries_connection(
    doc: Json,
    phase: Seq<char>,
    address: Seq<char>,
    key: Seq<char>,
    state: Json,
) -> bool {
    &&& is_in(doc, phase)
    &&& member(doc, "address"@) == Some(Json::Str(address))
    &&& member(doc, "key"@) == Some(Json::Str(key))
    &&& member(doc, "browse"@) == Some(Json::Bool(member(state, "browse"@) == Some(Json::Bool(true))))
    &&& member(doc, "parent"@) == or_nothing(member(state, "parent"@))
}

/// Whether an outcome reads a collection next, in a phase of its own, with the connection as it
/// is, and carries a document on.
pub open spec fn reads_on(
    outcome: (StepView, NextView),
    state: Json,
    input: Map<Seq<char>, Json>,
    collection: Seq<char>,
    what: Seq<char>,
    phase: Seq<char>,
    doc: Json,
) -> bool {
    &&& reads_collection(
        outcome.0,
        bridge_at(state, input),
        key_carried(state),
        collection,
        what,
    )
    &&& outcome.1 == NextView::Document(doc)
    &&& carries_connection(doc, phase, bridge_at(state, input), key_carried(state), state)
}

/// The document that an outcome carries on.
pub open spec fn carried_on(outcome: (StepView, NextView)) -> Json {
    match outcome.1 {
        NextView::Document(doc) => doc,
        NextView::SceneChoice { .. } => Json::Null,
    }
}

/// The catalog that is carried on is the one that was answered: after the devices and after the
/// buttons, exactly it and the connection.
pub proof fn law_the_answered_catalog_is_carried_on(
    state: Json,
    input: Map<Seq<char>, Json>,
    read: ReadBackView,
    answer: AnswerView,
)
    requires
        is_in(state, "devices"@) || is_in(state, "buttons"@),
    ensures
        ({
            let outcome = step_outcome(state, input, read, answer);
            let doc = carried_on(outcome);
            &&& is_in(state, "devices"@) ==> reads_on(
                outcome,
                state,
                input,
                "button"@,
                "reading the buttons"@,
                "buttons"@,
                doc,
            )
            &&& is_in(state, "buttons"@) ==> reads_on(
                outcome,
                state,
                input,
                "room"@,
                "reading the rooms"@,
                "rooms"@,
                doc,
            )
            &&& names_in(doc) == set![
                "phase"@,
                "address"@,
                "key"@,
                "browse"@,
                "parent"@,
                "catalog"@,
            ]
            &&& member(doc, "catalog"@) == Some(Json::Array(answer.catalog))
        }),
{
    lemma_words();
    let doc = carried_on(step_outcome(state, input, read, answer));
    assert(names_in(doc) =~= set![
        "phase"@,
        "address"@,
        "key"@,
        "browse"@,
        "parent"@,
        "catalog"@,
    ]);
}

/// The catalog that is carried on is the one that was answered, after the rooms, the zones and the
/// behaviors too. The names of rooms are those that were answered with it, after the rooms and the
/// zones, and stay as they were carried after the behaviors.
pub proof fn law_the_answered_names_are_carried_on(
    state: Json,
    input: Map<Seq<char>, Json>,
    read: ReadBackView,
    answer: AnswerView,
)
    requires
        is_in(state, "rooms"@) || is_in(state, "zones"@) || is_in(state, "behaviors"@),
    ensures
        ({
            let outcome = step_outcome(state, input, read, answer);
            let doc = carried_on(outcome);
            &&& is_in(state, "rooms"@) ==> reads_on(
                outcome,
                state,
                input,
                "zone"@,
                "reading the zones"@,
                "zones"@,
                doc,
            )
            &&& is_in(state, "zones"@) ==> reads_on(
                outcome,
                state,
                input,
                "behavior_instance"@,
                "reading what the switches already control"@,
                "behaviors"@,
                doc,
            )
            &&& is_in(state, "behaviors"@) ==> reads_on(
                outcome,
                state,
                input,
                "scene"@,
                "reading the scenes"@,
                "hue_scenes"@,
                doc,
            )
            &&& names_in(doc) == set![
                "phase"@,
                "address"@,
                "key"@,
                "browse"@,
                "parent"@,
                "catalog"@,
                "rooms"@,
            ]
            &&& member(doc, "catalog"@) == Some(Json::Array(answer.catalog))
            &&& is_in(state, "rooms"@) || is_in(state, "zones"@) ==> member(doc, "rooms"@) == Some(
                answer.names,
            )
            &&& is_in(state, "behaviors"@) ==> member(doc, "rooms"@) == or_nothing(
                member(state, "rooms"@),
            )
        }),
{
    lemma_words();
    let doc = carried_on(step_outcome(state, input, read, answer));
    assert(names_in(doc) =~= set![
        "phase"@,
        "address"@,
        "key"@,
        "browse"@,
        "parent"@,
        "catalog"@,
        "rooms"@,
    ]);
}

/// Whether a document carries on the catalog and the names of rooms of the state, and scenes.
pub open spec fn carries_all(doc: Json, state: Json, scenes: Option<Json>) -> bool {
    &&& names_in(doc) == set![
        "phase"@,
        "address"@,
        "key"@,
        "browse"@,
        "parent"@,
        "catalog"@,
        "rooms"@,
        "hue_scenes"@,
    ]
    &&& member(doc, "catalog"@) == or_nothing(member(state, "catalog"@))
    &&& member(doc, "rooms"@) == or_nothing(member(state, "rooms"@))
    &&& member(doc, "hue_scenes"@) == or_nothing(scenes)
}

/// Once the scenes have been read they are carried on as they came, and the catalog and the names
/// of rooms as they were.
pub proof fn law_the_scenes_are_carried_on(
    state: Json,
    input: Map<Seq<char>, Json>,
    read: ReadBackView,
    answer: AnswerView,
)
    requires
        is_in(state, "hue_scenes"@),
    ensures
        ({
            let outcome = step_outcome(state, input, read, answer);
            let doc = carried_on(outcome);
            &&& reads_on(
                outcome,
                state,
                input,
                "light"@,
                "reading the light list"@,
                "lights"@,
                doc,
            )
            &&& carries_all(doc, state, held(input, "response"@))
        }),
{
    lemma_words();
    let doc = carried_on(step_outcome(state, input, read, answer));
    assert(names_in(doc) =~= set![
        "phase"@,
        "address"@,
        "key"@,
        "browse"@,
        "parent"@,
        "catalog"@,
        "rooms"@,
        "hue_scenes"@,
    ]);
}

/// Why the bridge did not list its lights, where it says so.
pub open spec fn refusal_named(input: Map<Seq<char>, Json>) -> Option<Seq<char>> {
    let errors = list_in(inner(held(input, "response"@), "errors"@));
    if errors.len() > 0 {
        words_in(member(errors[0], "description"@))
    } else {
        None
    }
}

/// Whatever there is to choose from is shown, and the catalog, the names of rooms and the scenes
/// are carried on as they were.
pub proof fn law_choosing_carries_all_on(
    state: Json,
    input: Map<Seq<char>, Json>,
    read: ReadBackView,
    answer: AnswerView,
)
    requires
        is_in(state, "lights"@),
        step_outcome(state, input, read, answer).0 is Choose,
    ensures
        ({
            let (step, next) = step_outcome(state, input, read, answer);
            &&& next matches NextView::Document(doc)
            &&& carries_connection(
                doc,
                "chosen"@,
                bridge_at(state, input),
                key_carried(state),
                state,
            )
            &&& carries_all(doc, state, member(state, "hue_scenes"@))
        }),
{
    lemma_words();
    let doc = carried_on(step_outcome(state, input, read, answer));
    assert(names_in(doc) =~= set![
        "phase"@,
        "address"@,
        "key"@,
        "browse"@,
        "parent"@,
        "catalog"@,
        "rooms"@,
        "hue_scenes"@,
    ]);
}

/// A flow that begins at a bridge which is already set up goes straight to its devices, with the
/// address and the key set on it; it fails where either is missing.
pub proof fn law_browsing_starts_at_the_devices(
    state: Json,
    input: Map<Seq<char>, Json>,
    read: ReadBackView,
    answer: AnswerView,
    address: Seq<char>,
    key: Seq<char>,
)
    requires
        is_in(state, "start"@) || words_in(member(state, "phase"@)) is None,
        member(state, "browse"@) == Some(Json::Bool(true)),
        address == match words_in(member(state, "Bridge address"@)) {
            Some(address) => address,
            None => ""@,
        },
        key == match words_in(member(state, "Application key"@)) {
            Some(key) => key,
            None => ""@,
        },
    ensures
        ({
            let (step, next) = step_outcome(state, input, read, answer);
            &&& address.len() > 0 && key.len() > 0 ==> {
                &&& reads_collection(
                    step,
                    address,
                    key,
                    "device"@,
                    "reading what is paired to the bridge"@,
                )
                &&& next matches NextView::Document(doc)
                &&& names_in(doc) == set!["phase"@, "address"@, "key"@, "browse"@, "parent"@]
                &&& carries_connection(doc, "devices"@, address, key, state)
            }
            &&& address.len() == 0 || key.len() == 0 ==> {
                &&& step == (StepView::Failed {
                    reason: "this bridge has no address or key set — pair it first"@,
                })
                &&& next == NextView::Document(Json::Null)
            }
        }),
{
    lemma_words();
    if address.len() > 0 && key.len() > 0 {
        let doc = carried_on(step_outcome(state, input, read, answer));
        assert(names_in(doc) =~= set!["phase"@, "address"@, "key"@, "browse"@, "parent"@]);
    }
}

/// An address that is known is asked whether a bridge is there, without a key.
pub proof fn law_an_address_is_probed(
    state: Json,
    input: Map<Seq<char>, Json>,
    read: ReadBackView,
    answer: AnswerView,
)
    requires
        is_in(state, "probe"@),
        words_in(member(state, "address"@)) is Some || words_in(held(input, "address"@)) is Some,
    ensures
        ({
            let (step, next) = step_outcome(state, input, read, answer);
            let address = bridge_at(state, input);
            &&& step matches StepView::Fetch { request, note }
            &&& request.method == "GET"@
            &&& request.url == "https://"@ + address + "/api/config"@
            &&& request.headers.len() == 0
            &&& request.body is None
            &&& note == "checking the bridge"@
            &&& next matches NextView::Document(doc)
            &&& names_in(doc) == set!["phase"@, "address"@]
            &&& is_in(doc, "probed"@)
            &&& member(doc, "address"@) == Some(Json::Str(address))
        }),
{
    lemma_words();
    let doc = carried_on(step_outcome(state, input, read, answer));
    assert(names_in(doc) =~= set!["phase"@, "address"@]);
}

/// What answers with a model id of a Hue bridge is one: somebody is asked to press its button.
/// Nothing else is.
pub proof fn law_a_bridge_is_told_by_its_model(
    state: Json,
    input: Map<Seq<char>, Json>,
    read: ReadBackView,
    answer: AnswerView,
    model: Seq<char>,
    name: Seq<char>,
)
    requires
        is_in(state, "probed"@),
        model == match words_in(inner(held(input, "response"@), "modelid"@)) {
            Some(model) => model,
            None => ""@,
        },
        name == match words_in(inner(held(input, "response"@), "name"@)) {
            Some(name) => name,
            None => "Hue Bridge"@,
        },
    ensures
        ({
            let (step, next) = step_outcome(state, input, read, answer);
            let address = bridge_at(state, input);
            let is_bridge = model.len() >= 3 && model.take(3) == "BSB"@;
            &&& is_bridge ==> {
                &&& step == (StepView::Instruct {
                    title: "Press the link button on "@ + name,
                    body: "The round button on top."@,
                    continue_label: "I pressed it"@,
                })
                &&& next matches NextView::Document(doc)
                &&& names_in(doc) == set!["phase"@, "address"@, "name"@]
                &&& is_in(doc, "pair"@)
                &&& member(doc, "address"@) == Some(Json::Str(address))
                &&& member(doc, "name"@) == Some(Json::Str(name))
            }
            &&& !is_bridge ==> {
                &&& step == (StepView::Failed {
                    reason: address
                        + " did not answer as a Hue bridge. Check the address — the Hue app shows it under Settings → My Hue System."@,
                })
                &&& next == NextView::Document(Json::Null)
            }
        }),
{
    lemma_words();
    reveal_strlit("BSB");
    let is_bridge = model.len() >= 3 && model.take(3) == "BSB"@;
    if model.len() >= 3 {
        assert(model.take(3) =~= model.subrange(0, 3));
    }
    if is_bridge {
        let doc = carried_on(step_outcome(state, input, read, answer));
        assert(names_in(doc) =~= set!["phase"@, "address"@, "name"@]);
    }
}

/// Whether a step asks the bridge for a key.
pub open spec fn asks_for_key(step: StepView, address: Seq<char>) -> bool {
    exists|doc: Json|
        {
            &&& names_in(doc) == set!["devicetype"@, "generateclientkey"@]
            &&& member(doc, "devicetype"@) == Some(Json::Str("juno#controller"@))
            &&& member(doc, "generateclientkey"@) == Some(Json::Bool(true))
            &&& step == (StepView::Fetch {
                request: HttpRequestView {
                    method: "POST"@,
                    url: "https://"@ + address + "/api"@,
                    headers: Seq::empty(),
                    body: Some(#[trigger] written_json(doc)),
                },
                note: "pairing"@,
            })
        }
}

/// Pairing asks the bridge for a key, and counts how often.
pub proof fn law_pairing_asks_for_a_key(
    state: Json,
    input: Map<Seq<char>, Json>,
    read: ReadBackView,
    answer: AnswerView,
    tries: u64,
)
    requires
        is_in(state, "pair"@),
        tries == match count_in(member(state, "attempt"@)) {
            Some(n) => n,
            None => 0,
        },
        tries < u64::MAX,
    ensures
        ({
            let (step, next) = step_outcome(state, input, read, answer);
            let address = bridge_at(state, input);
            &&& asks_for_key(step, address)
            &&& next matches NextView::Document(doc)
            &&& names_in(doc) == set!["phase"@, "address"@, "attempt"@]
            &&& is_in(doc, "paired"@)
            &&& member(doc, "address"@) == Some(Json::Str(address))
            &&& member(doc, "attempt"@) == Some(
                Json::Number(Number::PosInt((tries + 1) as u64)),
            )
        }),
{
    lemma_words();
    let doc = carried_on(step_outcome(state, input, read, answer));
    assert(names_in(doc) =~= set!["phase"@, "address"@, "attempt"@]);
    let body = key_request();
    assert(names_in(body) =~= set!["devicetype"@, "generateclientkey"@]);
    assert(step_outcome(state, input, read, answer).0 == (StepView::Fetch {
        request: HttpRequestView {
            method: "POST"@,
            url: "https://"@ + bridge_at(state, input) + "/api"@,
            headers: Seq::empty(),
            body: Some(written_json(body)),
        },
        note: "pairing"@,
    }));
}

/// The first item that an answer lists, or nothing.
pub open spec fn first_answered(input: Map<Seq<char>, Json>) -> Json {
    let items = list_in(held(input, "response"@));
    if items.len() > 0 {
        items[0]
    } else {
        Json::Null
    }
}

/// With a key the devices of the bridge are read, and the address and that key are carried on.
pub proof fn law_a_key_opens_the_bridge(
    state: Json,
    input: Map<Seq<char>, Json>,
    read: ReadBackView,
    answer: AnswerView,
    key: Seq<char>,
)
    requires
        is_in(state, "paired"@),
        inner(member(first_answered(input), "success"@), "username"@) == Some(Json::Str(key)),
    ensures
        ({
            let (step, next) = step_outcome(state, input, read, answer);
            let address = bridge_at(state, input);
            &&& reads_collection(
                step,
                address,
                key,
                "device"@,
                "reading what is paired to the bridge"@,
            )
            &&& next matches NextView::Document(doc)
            &&& names_in(doc) == set!["phase"@, "address"@, "key"@]
            &&& is_in(doc, "devices"@)
            &&& member(doc, "address"@) == Some(Json::Str(address))
            &&& member(doc, "key"@) == Some(Json::Str(key))
        }),
{
    lemma_words();
    let doc = carried_on(step_outcome(state, input, read, answer));
    assert(names_in(doc) =~= set!["phase"@, "address"@, "key"@]);
}

/// Without a key the flow waits a second for the button, while it is the button that the bridge
/// waits for and fewer than thirty tries were made; else it fails, and says why.
pub proof fn law_without_a_key_the_flow_waits_or_fails(
    state: Json,
    input: Map<Seq<char>, Json>,
    read: ReadBackView,
    answer: AnswerView,
    tries: u64,
    problem: Seq<char>,
)
    requires
        is_in(state, "paired"@),
        words_in(inner(member(first_answered(input), "success"@), "username"@)) is None,
        tries == match count_in(member(state, "attempt"@)) {
            Some(n) => n,
            None => 1,
        },
        problem == match words_in(
            inner(member(first_answered(input), "error"@), "description"@),
        ) {
            Some(description) => description,
            None => "the bridge did not answer"@,
        },
    ensures
        ({
            let (step, next) = step_outcome(state, input, read, answer);
            let address = bridge_at(state, input);
            let button = has_part(problem, "link button"@);
            &&& button && tries < 30 ==> {
                &&& step == (StepView::Wait {
                    title: "Waiting for the link button"@,
                    body: "Press the round button on top of the bridge."@,
                    retry_ms: 1000,
                })
                &&& next matches NextView::Document(doc)
                &&& names_in(doc) == set!["phase"@, "address"@, "attempt"@]
                &&& is_in(doc, "pair"@)
                &&& member(doc, "address"@) == Some(Json::Str(address))
                &&& member(doc, "attempt"@) == Some(Json::Number(Number::PosInt(tries)))
            }
            &&& button && tries >= 30 ==> step == (StepView::Failed {
                reason: "the link button was not pressed in time — start again"@,
            })
            &&& !button ==> step == (StepView::Failed { reason: problem })
            &&& !button || tries >= 30 ==> next == NextView::Document(Json::Null)
        }),
{
    lemma_words();
    let first = first_item(held(input, "response"@));
    assert(get_in(first, "success"@) == member(first_answered(input), "success"@));
    assert(get_in(first, "error"@) == member(first_answered(input), "error"@));
    if has_part(problem, "link button"@) && tries < 30 {
        let doc = carried_on(step_outcome(state, input, read, answer));
        assert(names_in(doc) =~= set!["phase"@, "address"@, "attempt"@]);
    }
}

/// A phase that nobody knows ends the flow.
pub proof fn law_an_unknown_phase_ends_the_flow(
    state: Json,
    input: Map<Seq<char>, Json>,
    read: ReadBackView,
    answer: AnswerView,
    phase: Seq<char>,
)
    requires
        is_in(state, phase),
        !seq![
            "start"@,
            "probe"@,
            "probed"@,
            "pair"@,
            "paired"@,
            "devices"@,
            "buttons"@,
            "rooms"@,
            "zones"@,
            "behaviors"@,
            "hue_scenes"@,
            "lights"@,
            "chosen"@,
            "scene_choice"@,
        ].contains(phase),
    ensures
        step_outcome(state, input, read, answer) == (
            StepView::Failed { reason: "unknown setup phase `"@ + phase + "`"@ },
            NextView::Document(Json::Null),
        ),
{
    let known = seq![
        "start"@,
        "probe"@,
        "probed"@,
        "pair"@,
        "paired"@,
        "devices"@,
        "buttons"@,
        "rooms"@,
        "zones"@,
        "behaviors"@,
        "hue_scenes"@,
        "lights"@,
        "chosen"@,
        "scene_choice"@,
    ];
    assert(known[0] == "start"@ && known[1] == "probe"@ && known[2] == "probed"@);
    assert(known[3] == "pair"@ && known[4] == "paired"@ && known[5] == "devices"@);
    assert(known[6] == "buttons"@ && known[7] == "rooms"@ && known[8] == "zones"@);
    assert(known[9] == "behaviors"@ && known[10] == "hue_scenes"@ && known[11] == "lights"@);
    assert(known[12] == "chosen"@ && known[13] == "scene_choice"@);
}

/// The answer about the scenes takes them all where it begins with the word for it, and none
/// otherwise. The devices and the rules come as they were read back.
pub proof fn law_scenes_come_where_they_are_brought(
    state: Json,
    input: Map<Seq<char>, Json>,
    read: ReadBackView,
    answer: AnswerView,
)
    requires
        is_in(state, "scene_choice"@),
    ensures
        ({
            let (step, next) = step_outcome(state, input, read, answer);
            let bring = words_in(held(input, "scenes"@)) matches Some(choice) && choice.len() >= 5
                && choice.take(5) == "Bring"@;
            &&& next == NextView::Document(Json::Null)
            &&& step matches StepView::Done { devices, rules, scenes }
            &&& devices == read.devices
            &&& rules == read.rules
            &&& bring ==> scenes == read.scenes
            &&& !bring ==> scenes.len() == 0
        }),
{
    lemma_words();
    reveal_strlit("Bring");
    if let Some(choice) = words_in(held(input, "scenes"@)) {
        if choice.len() >= 5 {
            assert(choice.take(5) =~= choice.subrange(0, 5));
        }
    }
}

} // verus!
