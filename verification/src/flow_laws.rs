//! What holds of setting a bridge up.
use vstd::prelude::*;

use crate::adopt::{connection, scenes_asked, stripped};
use crate::catalog::{AnswerView, ReadBackView};
use crate::flow::{
    address_in, address_known, adopted, attempts, browsing, carried_text, discovery, first_item,
    open_question, pair_step, paired_step, phase_of, scene_choice_step, setting_up, step_outcome,
};
use crate::json::{at, get_in, or_null, str_in, Json};
use crate::setup::{CandidateView, ImportedSceneView, NextView, StepView, SCENE_CHOICE};
use crate::text::{has_part, stands_at};

verus! {

/// Each phase has a name of its own.
proof fn lemma_phases()
    ensures
        "start"@.len() == 5 && "start"@[0] == 's',
        "probe"@.len() == 5 && "probe"@[0] == 'p',
        "rooms"@.len() == 5 && "rooms"@[0] == 'r',
        "zones"@.len() == 5 && "zones"@[0] == 'z',
        "pair"@.len() == 4,
        "probed"@.len() == 6 && "probed"@[0] == 'p' && "probed"@[1] == 'r',
        "paired"@.len() == 6 && "paired"@[0] == 'p' && "paired"@[1] == 'a',
        "lights"@.len() == 6 && "lights"@[0] == 'l',
        "chosen"@.len() == 6 && "chosen"@[0] == 'c',
        "devices"@.len() == 7 && "devices"@[0] == 'd',
        "buttons"@.len() == 7 && "buttons"@[0] == 'b',
        "behaviors"@.len() == 9,
        "hue_scenes"@.len() == 10,
        "scene_choice"@.len() == 12,
{
    reveal_strlit("start");
    reveal_strlit("probe");
    reveal_strlit("probed");
    reveal_strlit("pair");
    reveal_strlit("paired");
    reveal_strlit("devices");
    reveal_strlit("buttons");
    reveal_strlit("rooms");
    reveal_strlit("zones");
    reveal_strlit("behaviors");
    reveal_strlit("hue_scenes");
    reveal_strlit("lights");
    reveal_strlit("chosen");
    reveal_strlit("scene_choice");
}

/// The members of a carried state have names of their own.
proof fn lemma_state_names()
    ensures
        "phase"@.len() == 5 && "phase"@[0] == 'p',
        "rooms"@.len() == 5 && "rooms"@[0] == 'r',
        "address"@.len() == 7 && "address"@[0] == 'a' && "address"@[1] == 'd',
        "catalog"@.len() == 7 && "catalog"@[0] == 'c',
        "attempt"@.len() == 7 && "attempt"@[0] == 'a' && "attempt"@[1] == 't',
        "key"@.len() == 3,
        "browse"@.len() == 6 && "browse"@[0] == 'b',
        "parent"@.len() == 6 && "parent"@[0] == 'p',
        "hue_scenes"@.len() == 10,
        "name"@.len() == 4,
{
    reveal_strlit("phase");
    reveal_strlit("rooms");
    reveal_strlit("address");
    reveal_strlit("catalog");
    reveal_strlit("attempt");
    reveal_strlit("key");
    reveal_strlit("browse");
    reveal_strlit("parent");
    reveal_strlit("hue_scenes");
    reveal_strlit("name");
}

/// The phase that reads the next collection of the bridge, for each phase that has read one.
pub open spec fn next_phase(phase: Seq<char>) -> Option<Seq<char>> {
    if phase == "devices"@ {
        Some("buttons"@)
    } else if phase == "buttons"@ {
        Some("rooms"@)
    } else if phase == "rooms"@ {
        Some("zones"@)
    } else if phase == "zones"@ {
        Some("behaviors"@)
    } else if phase == "behaviors"@ {
        Some("hue_scenes"@)
    } else if phase == "hue_scenes"@ {
        Some("lights"@)
    } else {
        None
    }
}

/// The collections of the bridge are read one after the other, and each step carries on what the
/// flow is about: the address, the key, and whether and what it browses.
pub proof fn law_the_collections_are_read_in_order(
    state: Json,
    input: Map<Seq<char>, Json>,
    read: ReadBackView,
    answer: AnswerView,
)
    requires
        next_phase(phase_of(state)) is Some,
    ensures
        ({
            let (step, next) = step_outcome(state, input, read, answer);
            &&& step is Fetch
            &&& next matches NextView::Document(after) && {
                &&& Some(phase_of(after)) == next_phase(phase_of(state))
                &&& address_known(after, Map::empty()) == Some(address_in(state, input))
                &&& carried_text(after, "key"@, ""@) == carried_text(state, "key"@, ""@)
                &&& browsing(after) == browsing(state)
                &&& or_null(after.get("parent"@)) == or_null(state.get("parent"@))
            }
        }),
{
    lemma_phases();
    lemma_state_names();
}

/// Choosing carries on what the flow is about too, so that the last step still knows whether the
/// bridge is already set up.
pub proof fn law_choosing_keeps_what_is_browsed(
    state: Json,
    input: Map<Seq<char>, Json>,
    read: ReadBackView,
    answer: AnswerView,
)
    requires
        phase_of(state) == "lights"@,
        step_outcome(state, input, read, answer).0 is Choose,
    ensures
        step_outcome(state, input, read, answer).1 matches NextView::Document(after) && {
            &&& phase_of(after) == "chosen"@
            &&& address_known(after, Map::empty()) == Some(address_in(state, input))
            &&& carried_text(after, "key"@, ""@) == carried_text(state, "key"@, ""@)
            &&& browsing(after) == browsing(state)
            &&& or_null(after.get("parent"@)) == or_null(state.get("parent"@))
        },
{
    lemma_phases();
    lemma_state_names();
}

/// Browsing a bridge that is already set up adopts exactly what was chosen, and never the bridge
/// a second time.
pub proof fn law_browsing_never_offers_the_bridge_again(
    address: Seq<char>,
    key: Seq<char>,
    state: Json,
    chosen: Seq<CandidateView>,
)
    requires
        browsing(state),
    ensures
        adopted(address, key, state, chosen).len() == chosen.len(),
        forall|i: int|
            0 <= i < chosen.len() ==> #[trigger] adopted(address, key, state, chosen)[i]
                == stripped(chosen[i]),
{
}

/// Setting a bridge up adopts the bridge first, which carries the connection, and then what was
/// chosen.
pub proof fn law_setting_up_adopts_the_bridge_first(
    address: Seq<char>,
    key: Seq<char>,
    state: Json,
    chosen: Seq<CandidateView>,
)
    requires
        !browsing(state),
    ensures
        adopted(address, key, state, chosen).len() == chosen.len() + 1,
        adopted(address, key, state, chosen)[0].driver_id == "signify.hue.bridge"@,
        adopted(address, key, state, chosen)[0].properties == connection(address, key),
        forall|i: int|
            0 < i <= chosen.len() ==> #[trigger] adopted(address, key, state, chosen)[i]
                == stripped(chosen[i - 1]),
{
}

/// A device that is adopted keeps what makes it individual, its driver above all, and drops only
/// what it inherits from the bridge.
pub proof fn law_a_device_drops_only_the_connection(c: CandidateView)
    ensures
        stripped(c).driver_id == c.driver_id,
        stripped(c).label == c.label,
        stripped(c).kind == c.kind,
        stripped(c).room == c.room,
        stripped(c).capabilities == c.capabilities,
        !stripped(c).properties.contains_key("Bridge address"@),
        !stripped(c).properties.contains_key("Application key"@),
        forall|name: Seq<char>|
            name != "Bridge address"@ && name != "Application key"@ ==> #[trigger] at(
                stripped(c).properties,
                name,
            ) == at(c.properties, name),
{
}

/// Every wait for the link button is followed by one more try, counted, and after the thirtieth
/// there is none.
pub proof fn law_every_wait_is_counted(
    address: Seq<char>,
    state: Json,
    response: Option<Json>,
)
    requires
        paired_step(address, state, response).0 is Wait,
    ensures
        attempts(state, 1) < 30,
        paired_step(address, state, response).1 matches NextView::Document(waiting) && {
            &&& phase_of(waiting) == "pair"@
            &&& pair_step(address, waiting).1 matches NextView::Document(tried) && {
                &&& phase_of(tried) == "paired"@
                &&& attempts(tried, 1) == attempts(state, 1) + 1
            }
        },
{
    lemma_state_names();
}

/// Whether an answer to asking for a key says that the button was not pressed.
pub open spec fn refused_for_the_button(input: Map<Seq<char>, Json>) -> bool {
    let first = first_item(at(input, "response"@));
    &&& str_in(get_in(get_in(first, "success"@), "username"@)) is None
    &&& str_in(get_in(get_in(first, "error"@), "description"@)) matches Some(description)
        && has_part(description, "link button"@)
}

/// The document that a step carries on.
pub open spec fn fed_back(
    state: Json,
    input: Map<Seq<char>, Json>,
    read: ReadBackView,
    answer: AnswerView,
) -> Json {
    match step_outcome(state, input, read, answer).1 {
        NextView::Document(after) => after,
        NextView::SceneChoice { .. } => Json::Null,
    }
}

/// The state after a number of rounds of asking for a key, each of two steps: one that asks, and
/// one that takes the answer. Each step is handed the state that the one before it carried on.
pub open spec fn after_rounds(
    state: Json,
    asks: Seq<Map<Seq<char>, Json>>,
    answers: Seq<Map<Seq<char>, Json>>,
    rounds: nat,
    read: ReadBackView,
    answer: AnswerView,
) -> Json
    decreases rounds,
{
    if rounds == 0 {
        state
    } else {
        let n = rounds - 1;
        let before = after_rounds(state, asks, answers, n as nat, read, answer);
        let asked = fed_back(before, asks[n], read, answer);
        fed_back(asked, answers[n], read, answer)
    }
}

proof fn lemma_rounds(
    state: Json,
    asks: Seq<Map<Seq<char>, Json>>,
    answers: Seq<Map<Seq<char>, Json>>,
    rounds: nat,
    read: ReadBackView,
    answer: AnswerView,
)
    requires
        rounds < 30,
        phase_of(state) == "pair"@,
        attempts(state, 0) == 0,
        asks.len() >= rounds,
        answers.len() >= rounds,
        forall|i: int| 0 <= i < rounds ==> refused_for_the_button(#[trigger] answers[i]),
    ensures
        phase_of(after_rounds(state, asks, answers, rounds, read, answer)) == "pair"@,
        attempts(after_rounds(state, asks, answers, rounds, read, answer), 0) == rounds,
    decreases rounds,
{
    if rounds > 0 {
        let n = (rounds - 1) as nat;
        lemma_rounds(state, asks, answers, n, read, answer);
        lemma_phases();
        lemma_state_names();
        let before = after_rounds(state, asks, answers, n, read, answer);
        let asked = fed_back(before, asks[n as int], read, answer);
        assert(refused_for_the_button(answers[n as int]));
        assert(phase_of(asked) == "paired"@);
        assert(attempts(asked, 1) == rounds);
    }
}

/// Waiting for the link button ends. As long as the bridge refuses for its button, each of thirty
/// rounds asks for a key once; the first twenty-nine wait for another, and the thirtieth fails.
pub proof fn law_waiting_for_the_button_ends(
    state: Json,
    asks: Seq<Map<Seq<char>, Json>>,
    answers: Seq<Map<Seq<char>, Json>>,
    round: nat,
    read: ReadBackView,
    answer: AnswerView,
)
    requires
        phase_of(state) == "pair"@,
        attempts(state, 0) == 0,
        asks.len() == 30,
        answers.len() == 30,
        forall|i: int| 0 <= i < 30 ==> refused_for_the_button(#[trigger] answers[i]),
        round < 30,
    ensures
        ({
            let before = after_rounds(state, asks, answers, round, read, answer);
            let asking = step_outcome(before, asks[round as int], read, answer).0;
            let asked = fed_back(before, asks[round as int], read, answer);
            let (then_what, next) = step_outcome(asked, answers[round as int], read, answer);
            &&& asking matches StepView::Fetch { request, .. } && request.method == "POST"@
            &&& round < 29 ==> then_what is Wait
            &&& round == 29 ==> then_what == (StepView::Failed {
                reason: "the link button was not pressed in time — start again"@,
            }) && next == NextView::Document(Json::Null)
        }),
{
    lemma_rounds(state, asks, answers, round, read, answer);
    lemma_phases();
    lemma_state_names();
    let before = after_rounds(state, asks, answers, round, read, answer);
    let asked = fed_back(before, asks[round as int], read, answer);
    assert(refused_for_the_button(answers[round as int]));
    assert(phase_of(asked) == "paired"@);
    assert(attempts(asked, 1) == round + 1);
}

/// Setup speaks only HTTPS: every request of the flow goes to an address that begins with it.
pub proof fn law_setup_speaks_only_https(
    state: Json,
    input: Map<Seq<char>, Json>,
    read: ReadBackView,
    answer: AnswerView,
)
    ensures
        step_outcome(state, input, read, answer).0 matches StepView::Fetch { request, .. }
            ==> stands_at(request.url, "https://"@, 0),
{
    if let StepView::Fetch { request, .. } = step_outcome(state, input, read, answer).0 {
        assert(request.url.subrange(0, "https://"@.len() as int) =~= "https://"@);
    }
}

/// Discovery and setup are the same flow, whatever the ids of the drivers they run as.
pub proof fn law_discovery_is_setup(
    one: Seq<char>,
    other: Seq<char>,
    state: Json,
    input: Map<Seq<char>, Json>,
    read: ReadBackView,
    answer: AnswerView,
)
    ensures
        discovery(one, state, input, read, answer) == setting_up(
            other,
            state,
            input,
            read,
            answer,
        ),
        discovery(one, state, input, read, answer) == step_outcome(state, input, read, answer),
        discovery(one, state, input, read, answer).0 matches StepView::Fetch { request, .. }
            ==> stands_at(request.url, "https://"@, 0),
{
    law_setup_speaks_only_https(state, input, read, answer);
}

/// The state in which the question about the scenes is open holds what the answer is about, and
/// the next step takes that answer.
pub proof fn law_the_open_question_is_answered_next(
    devices: Json,
    rules: Json,
    scenes: Json,
    input: Map<Seq<char>, Json>,
    read: ReadBackView,
    answer: AnswerView,
)
    ensures
        open_question(devices, rules, scenes).get("devices"@) == Some(devices),
        open_question(devices, rules, scenes).get("rules"@) == Some(rules),
        open_question(devices, rules, scenes).get("scenes"@) == Some(scenes),
        phase_of(open_question(devices, rules, scenes)) == SCENE_CHOICE@,
        step_outcome(open_question(devices, rules, scenes), input, read, answer)
            == scene_choice_step(input, read),
{
    lemma_phases();
    lemma_state_names();
    reveal_strlit("rules");
    reveal_strlit("scenes");
    assert("rules"@.len() == 5 && "rules"@[0] == 'r');
    assert("scenes"@.len() == 6);
}

/// A flow that fails or is done carries nothing on.
pub proof fn law_the_end_carries_nothing(
    state: Json,
    input: Map<Seq<char>, Json>,
    read: ReadBackView,
    answer: AnswerView,
)
    requires
        step_outcome(state, input, read, answer).0 is Failed || step_outcome(
            state,
            input,
            read,
            answer,
        ).0 is Done,
    ensures
        step_outcome(state, input, read, answer).1 == NextView::Document(Json::Null),
{
}

/// Scenes are asked about exactly where there are any, and whatever the answer the devices and
/// the rules come over as they were.
pub proof fn law_skipping_the_scenes_changes_nothing_else(
    devices: Seq<CandidateView>,
    rules: Seq<Json>,
    scenes: Seq<ImportedSceneView>,
    input: Map<Seq<char>, Json>,
    chosen: Seq<CandidateView>,
)
    ensures
        scenes.len() == 0 <==> scenes_asked(devices, rules, scenes).0 is Done,
        scenes.len() == 0 ==> scenes_asked(devices, rules, scenes).0 == (StepView::Done {
            devices,
            rules,
            scenes,
        }),
        scenes.len() > 0 ==> {
            &&& scenes_asked(devices, rules, scenes).1 == (NextView::SceneChoice {
                devices,
                rules,
                scenes,
            })
            &&& scene_choice_step(input, ReadBackView { chosen, devices, rules, scenes }).0 matches
                StepView::Done { devices: d, rules: r, scenes: s } && d == devices && r == rules && (
            s == scenes || s.len() == 0)
        },
{
}

} // verus!
