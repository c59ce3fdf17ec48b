//! The conversation that sets a bridge up.
//!
//! The host performs every request and renders every screen, and carries the state between steps.
//! What the catalog of a bridge's devices has to answer for a step is asked with
//! [`catalog_question`] and handed to [`HueBulb::step`].
use vstd::prelude::*;
use vstd::string::*;

use crate::adopt::{
    all_stripped, append_stripped, ask_about_scenes, bridge_candidate, bridge_device, light_options,
    offer_lights, offer_title, scenes_asked, title_of,
};
use crate::catalog::{
    AnswerView, CatalogAnswer, CatalogQuestion, QuestionView, ReadBack, ReadBackView,
};
use crate::codec::{json_string, written_json};
use crate::host::{HttpRequest, HttpRequestView};
use crate::json::{
    at, bool_in, bool_of, get_in, get_of, items_in, json_in, json_object1, json_of, json_text,
    json_uint, jsons, listed, object1, or_null, or_null_of, str_in, str_of, u64_or, u64_or_of, uint,
    Json, JsonValue, Record,
};
use crate::order::texts;
use crate::setup::{
    Candidate, CandidateView, Field, FieldView, NextState, NextView, PickRow, PickRowView,
    SetupStep, StepView, SCENE_CHOICE,
};
use crate::text::{
    before_dot, contains, decimal, decimal_text, first_segment, has_part, same, stands_at,
    starts_with, text_of, trim, trimmed,
};
use crate::views::{group_views, seen, views};
use crate::HueBulb;

verus! {

broadcast use group_views;

/// Where the flow is.
pub open spec fn phase_of(state: Json) -> Seq<char> {
    match state.str_at("phase"@) {
        Some(phase) => phase,
        None => "start"@,
    }
}

/// The address of the bridge: the one carried, else the one just given.
pub open spec fn address_known(state: Json, input: Map<Seq<char>, Json>) -> Option<Seq<char>> {
    match state.str_at("address"@) {
        Some(address) => Some(address),
        None => match str_in(at(input, "address"@)) {
            Some(typed) => Some(trimmed(typed)),
            None => None,
        },
    }
}

/// The address of the bridge, or nothing.
pub open spec fn address_in(state: Json, input: Map<Seq<char>, Json>) -> Seq<char> {
    match address_known(state, input) {
        Some(address) => address,
        None => ""@,
    }
}

/// A text that the state carries, or the given one.
pub open spec fn carried_text(state: Json, name: Seq<char>, otherwise: Seq<char>) -> Seq<char> {
    match state.str_at(name) {
        Some(s) => s,
        None => otherwise,
    }
}

/// Whether the flow looks for more devices behind a bridge that is already set up.
pub open spec fn browsing(state: Json) -> bool {
    bool_in(state.get("browse"@)) == Some(true)
}

/// What every later step carries on: the connection, and what is being browsed.
pub open spec fn carried(
    phase: Seq<char>,
    address: Seq<char>,
    key: Seq<char>,
    state: Json,
) -> Map<Seq<char>, Json> {
    Map::empty().insert("phase"@, Json::Str(phase)).insert("address"@, Json::Str(address)).insert(
        "key"@,
        Json::Str(key),
    ).insert("browse"@, Json::Bool(browsing(state))).insert(
        "parent"@,
        or_null(state.get("parent"@)),
    )
}

/// A step that reads one collection of the bridge.
pub open spec fn fetching(
    address: Seq<char>,
    collection: Seq<char>,
    key: Seq<char>,
    note: Seq<char>,
) -> StepView {
    StepView::Fetch {
        request: HttpRequestView::with_key(
            "GET"@,
            "https://"@ + address + "/clip/v2/resource/"@ + collection,
            key,
            None,
        ),
        note,
    }
}

/// The end of a flow that failed.
pub open spec fn failing(reason: Seq<char>) -> (StepView, NextView) {
    (StepView::Failed { reason }, NextView::Document(Json::Null))
}

/// A field for a text that must be filled in.
pub open spec fn text_field(name: Seq<char>, label: Seq<char>, help: Seq<char>) -> FieldView {
    FieldView {
        name,
        label,
        kind: "string"@,
        help,
        default: None,
        options: Seq::empty(),
        required: true,
    }
}

/// A bridge that announced itself, as a row to pick.
pub open spec fn bridge_row(found: Json) -> Option<PickRowView> {
    match found.str_at("address"@) {
        None => None,
        Some(address) => {
            let name = carried_text(found, "name"@, "Hue bridge"@);
            let model = match str_in(get_in(found.get("txt"@), "modelid"@)) {
                Some(model) => model,
                None => "—"@,
            };
            let id = match str_in(get_in(found.get("txt"@), "bridgeid"@)) {
                Some(id) => id,
                None => ""@,
            };
            Some(
                PickRowView {
                    value: address,
                    cells: seq![before_dot(name), address, model],
                    note: if stands_at(address, "127."@, 0) {
                        "on this machine only"@
                    } else if id.len() == 0 {
                        ""@
                    } else {
                        "id "@ + id
                    },
                },
            )
        },
    }
}

/// Offer whatever announced itself, and let an address be typed anyway.
pub open spec fn address_asked(state: Json) -> (StepView, NextView) {
    let found = state.items_at("mdns_candidates"@);
    let typed = text_field("address"@, "Bridge address"@, "for example 192.168.1.42"@);
    let next = NextView::Document(object1("phase"@, Json::Str("probe"@)));
    if found.len() == 0 {
        (
            StepView::Form {
                title: "Find your Hue bridge"@,
                body: "Nothing announced itself on the network, so enter the bridge's address. It is in the Hue app under Settings → My Hue System → the (i) beside your bridge."@,
                fields: seq![typed],
            },
            next,
        )
    } else {
        let rows = found.filter_map(|f: Json| bridge_row(f));
        (
            StepView::Pick {
                title: "Found "@ + decimal(rows.len()) + " Hue bridge"@ + (if rows.len() == 1 {
                    ""@
                } else {
                    "s"@
                }),
                body: "Pick the one to set up."@,
                columns: seq!["Bridge"@, "Address"@, "Model"@],
                rows,
                field: "address"@,
                manual: Some(typed),
            },
            next,
        )
    }
}

/// Where the flow is. The host carries this between calls; the driver stays stateless.
pub fn phase(state: &JsonValue) -> (r: &str)
    ensures
        r@ == phase_of(state@),
{
    match state.str_at("phase") {
        Some(phase) => phase,
        None => "start",
    }
}

/// A field for a text that must be filled in.
pub fn field(name: &str, label: &str, help: &str) -> (r: Field)
    ensures
        r@ == text_field(name@, label@, help@),
{
    let r = Field {
        name: name.to_owned(),
        label: label.to_owned(),
        kind: "string".to_owned(),
        help: help.to_owned(),
        default: None,
        options: Vec::new(),
        required: true,
    };
    assert(r@.options =~= Seq::empty());
    r
}

fn carried_or<'a>(state: &'a JsonValue, name: &str, otherwise: &'a str) -> (r: &'a str)
    ensures
        r@ == carried_text(state@, name@, otherwise@),
{
    match state.str_at(name) {
        Some(s) => s,
        None => otherwise,
    }
}

fn pick_row(found: &JsonValue) -> (r: Option<PickRow>)
    ensures
        seen(r) == bridge_row(found@),
{
    let address = match found.str_at("address") {
        Some(address) => address,
        None => return None,
    };
    let name = carried_or(found, "name", "Hue bridge");
    let model = match str_of(get_of(found.get("txt"), "modelid")) {
        Some(model) => model,
        None => "—",
    };
    let id = match str_of(get_of(found.get("txt"), "bridgeid")) {
        Some(id) => id,
        None => "",
    };
    let note = if starts_with(address, "127.") {
        "on this machine only".to_owned()
    } else if id.is_empty() {
        "".to_owned()
    } else {
        "id ".to_owned().concat(id)
    };
    let mut cells: Vec<String> = Vec::new();
    cells.push(first_segment(name));
    cells.push(address.to_owned());
    cells.push(model.to_owned());
    assert(texts(cells@) =~= seq![before_dot(name@), address@, model@]);
    Some(PickRow { value: address.to_owned(), cells, note })
}

fn pick_rows(found: &Vec<JsonValue>) -> (r: Vec<PickRow>)
    ensures
        views(r@) == jsons(found@).filter_map(|f: Json| bridge_row(f)),
{
    let mut rows: Vec<PickRow> = Vec::new();
    let ghost f = |f: Json| bridge_row(f);
    let ghost all = jsons(found@);
    assert(views(rows@) =~= all.take(0).filter_map(f)) by {
        reveal_with_fuel(Seq::filter_map, 1);
    }
    let mut i: usize = 0;
    while i < found.len()
        invariant
            i <= found.len(),
            all == jsons(found@),
            f == (|f: Json| bridge_row(f)),
            views(rows@) == all.take(i as int).filter_map(f),
        decreases found.len() - i,
    {
        proof {
            all.lemma_filter_map_take_succ(f, i as int);
        }
        let ghost before = views(rows@);
        if let Some(row) = pick_row(&found[i]) {
            rows.push(row);
            assert(views(rows@) =~= before + seq![row@]);
        }
        i += 1;
    }
    assert(all.take(i as int) =~= all);
    rows
}

impl HueBulb {
    /// Offer whatever announced itself, and let an address be typed anyway.
    ///
    /// Nobody should have to go and find an address for hardware that is already shouting its own
    /// name on the network, but multicast is blocked on plenty of networks.
    pub fn ask_for_address(state: &JsonValue) -> (r: (SetupStep, NextState))
        ensures
            (r.0@, r.1@) == address_asked(state@),
    {
        let typed = field("address", "Bridge address", "for example 192.168.1.42");
        let next = NextState::Document(json_object1("phase", json_text("probe")));
        let found = state.items_at("mdns_candidates");
        if let Some(found) = found {
            if found.len() > 0 {
                let rows = pick_rows(found);
                let title = "Found ".to_owned().concat(
                    decimal_text(rows.len() as u64).as_str(),
                ).concat(" Hue bridge").concat(
                    if rows.len() == 1 {
                        ""
                    } else {
                        "s"
                    },
                );
                let mut columns: Vec<String> = Vec::new();
                columns.push("Bridge".to_owned());
                columns.push("Address".to_owned());
                columns.push("Model".to_owned());
                assert(texts(columns@) =~= seq!["Bridge"@, "Address"@, "Model"@]);
                return (
                    SetupStep::Pick {
                        title,
                        body: "Pick the one to set up.".to_owned(),
                        columns,
                        rows,
                        field: "address".to_owned(),
                        manual: Some(typed),
                    },
                    next,
                );
            }
        }
        let mut fields: Vec<Field> = Vec::new();
        fields.push(typed);
        (
            SetupStep::Form {
                title: "Find your Hue bridge".to_owned(),
                body: "Nothing announced itself on the network, so enter the bridge's address. It is in the Hue app under Settings → My Hue System → the (i) beside your bridge.".to_owned(),
                fields,
            },
            next,
        )
    }
}

/// Browsing a bridge that already exists: it has an address and a key, so the flow goes straight
/// to listing.
pub open spec fn browse_step(state: Json) -> (StepView, NextView) {
    let address = carried_text(state, "Bridge address"@, ""@);
    let key = carried_text(state, "Application key"@, ""@);
    if address.len() == 0 || key.len() == 0 {
        failing("this bridge has no address or key set — pair it first"@)
    } else {
        (
            fetching(address, "device"@, key, "reading what is paired to the bridge"@),
            NextView::Document(Json::Object(carried("devices"@, address, key, state))),
        )
    }
}

/// Whether there is a bridge at the address.
pub open spec fn probe_step(address: Seq<char>) -> (StepView, NextView) {
    (
        StepView::Fetch {
            request: HttpRequestView::bare("GET"@, "https://"@ + address + "/api/config"@),
            note: "checking the bridge"@,
        },
        NextView::Document(
            Json::Object(
                Map::empty().insert("phase"@, Json::Str("probed"@)).insert(
                    "address"@,
                    Json::Str(address),
                ),
            ),
        ),
    )
}

/// What the bridge's configuration says. Every Hue bridge reports a BSB model id.
pub open spec fn probed_step(address: Seq<char>, response: Option<Json>) -> (StepView, NextView) {
    let model = match str_in(get_in(response, "modelid"@)) {
        Some(model) => model,
        None => ""@,
    };
    let name = match str_in(get_in(response, "name"@)) {
        Some(name) => name,
        None => "Hue Bridge"@,
    };
    if !stands_at(model, "BSB"@, 0) {
        failing(
            address
                + " did not answer as a Hue bridge. Check the address — the Hue app shows it under Settings → My Hue System."@,
        )
    } else {
        (
            StepView::Instruct {
                title: "Press the link button on "@ + name,
                body: "The round button on top."@,
                continue_label: "I pressed it"@,
            },
            NextView::Document(
                Json::Object(
                    Map::empty().insert("phase"@, Json::Str("pair"@)).insert(
                        "address"@,
                        Json::Str(address),
                    ).insert("name"@, Json::Str(name)),
                ),
            ),
        )
    }
}

/// How many times a key has been asked for.
pub open spec fn attempts(state: Json, otherwise: u64) -> u64 {
    u64_or(state.get("attempt"@), otherwise)
}

/// The document that asks for a key.
pub open spec fn key_request() -> Json {
    Json::Object(
        Map::empty().insert("devicetype"@, Json::Str("juno#controller"@)).insert(
            "generateclientkey"@,
            Json::Bool(true),
        ),
    )
}

/// Ask for a key. The bridge refuses until its button is pressed.
pub open spec fn pair_step(address: Seq<char>, state: Json) -> (StepView, NextView) {
    (
        StepView::Fetch {
            request: HttpRequestView {
                body: Some(written_json(key_request())),
                ..HttpRequestView::bare("POST"@, "https://"@ + address + "/api"@)
            },
            note: "pairing"@,
        },
        NextView::Document(
            Json::Object(
                Map::empty().insert("phase"@, Json::Str("paired"@)).insert(
                    "address"@,
                    Json::Str(address),
                ).insert("attempt"@, uint((attempts(state, 0) + 1) as u64)),
            ),
        ),
    )
}

/// The first item of an answer that is a list.
pub open spec fn first_item(response: Option<Json>) -> Option<Json> {
    let items = items_in(response);
    if items.len() > 0 {
        Some(items[0])
    } else {
        None
    }
}

/// What came of asking for a key: the key, another try while the button may still be pressed, or
/// the end.
pub open spec fn paired_step(address: Seq<char>, state: Json, response: Option<Json>) -> (
    StepView,
    NextView,
) {
    let first = first_item(response);
    let attempt = attempts(state, 1);
    let description = match str_in(get_in(get_in(first, "error"@), "description"@)) {
        Some(description) => description,
        None => "the bridge did not answer"@,
    };
    match str_in(get_in(get_in(first, "success"@), "username"@)) {
        Some(key) => (
            fetching(address, "device"@, key, "reading what is paired to the bridge"@),
            NextView::Document(
                Json::Object(
                    Map::empty().insert("phase"@, Json::Str("devices"@)).insert(
                        "address"@,
                        Json::Str(address),
                    ).insert("key"@, Json::Str(key)),
                ),
            ),
        ),
        None => if !has_part(description, "link button"@) {
            failing(description)
        } else if attempt < 30 {
            (
                StepView::Wait {
                    title: "Waiting for the link button"@,
                    body: "Press the round button on top of the bridge."@,
                    retry_ms: 1000,
                },
                NextView::Document(
                    Json::Object(
                        Map::empty().insert("phase"@, Json::Str("pair"@)).insert(
                            "address"@,
                            Json::Str(address),
                        ).insert("attempt"@, uint(attempt)),
                    ),
                ),
            )
        } else {
            failing("the link button was not pressed in time — start again"@)
        },
    }
}

/// A step that carries the catalog on to the next collection.
pub open spec fn catalog_step(
    address: Seq<char>,
    key: Seq<char>,
    state: Json,
    collection: Seq<char>,
    note: Seq<char>,
    phase: Seq<char>,
    catalog: Seq<Json>,
) -> (StepView, NextView) {
    (
        fetching(address, collection, key, note),
        NextView::Document(
            Json::Object(
                carried(phase, address, key, state).insert("catalog"@, Json::Array(catalog)),
            ),
        ),
    )
}

/// A step that carries the catalog and the names of rooms on to the next collection.
pub open spec fn names_step(
    address: Seq<char>,
    key: Seq<char>,
    state: Json,
    collection: Seq<char>,
    note: Seq<char>,
    phase: Seq<char>,
    catalog: Seq<Json>,
    names: Json,
) -> (StepView, NextView) {
    (
        fetching(address, collection, key, note),
        NextView::Document(
            Json::Object(
                carried(phase, address, key, state).insert("catalog"@, Json::Array(catalog)).insert(
                    "rooms"@,
                    names,
                ),
            ),
        ),
    )
}

/// What the state and an answer carry on once the scenes have been read. They are kept as they
/// came until it is known which lights were picked.
pub open spec fn carried_scenes(
    phase: Seq<char>,
    address: Seq<char>,
    key: Seq<char>,
    state: Json,
    scenes: Option<Json>,
) -> Json {
    Json::Object(
        carried(phase, address, key, state).insert(
            "catalog"@,
            or_null(state.get("catalog"@)),
        ).insert("rooms"@, or_null(state.get("rooms"@))).insert("hue_scenes"@, or_null(scenes)),
    )
}

/// Why the bridge did not list its lights.
pub open spec fn light_list_error(response: Option<Json>) -> Option<Seq<char>> {
    str_in(get_in(first_item(get_in(response, "errors"@)), "description"@))
}

/// Everything behind the bridge to choose from: its lights and, after them, the accessories. No
/// lights is no failure, as long as there is anything.
pub open spec fn lights_step(
    address: Seq<char>,
    key: Seq<char>,
    state: Json,
    response: Option<Json>,
    answer: AnswerView,
) -> (StepView, NextView) {
    let lights = light_options(
        items_in(get_in(response, "data"@)),
        address,
        key,
        answer.rooms,
    );
    match light_list_error(response) {
        Some(error) => failing("the bridge refused the light list: "@ + error),
        None => if lights.len() + answer.accessories.len() == 0 {
            failing(
                "the bridge reported nothing paired to it — add your lights and accessories in the Hue app first"@,
            )
        } else {
            (
                StepView::Choose {
                    title: offer_title(lights.len(), answer.accessories.len()),
                    body: "Anything the bridge cannot reach is marked."@,
                    options: lights + answer.accessories,
                    multiple: true,
                },
                NextView::Document(
                    carried_scenes("chosen"@, address, key, state, state.get("hue_scenes"@)),
                ),
            )
        },
    }
}

/// The devices to adopt. The bridge comes first and carries the connection; everything behind it
/// carries only what makes it individual. Where a bridge is browsed only what is behind it is new.
pub open spec fn adopted(
    address: Seq<char>,
    key: Seq<char>,
    state: Json,
    chosen: Seq<CandidateView>,
) -> Seq<CandidateView> {
    if browsing(state) {
        all_stripped(chosen)
    } else {
        seq![
            bridge_candidate(
                carried_text(state, "name"@, "Hue Bridge"@),
                address,
                key,
                chosen.len(),
            ),
        ] + all_stripped(chosen)
    }
}

/// The state in which the question whether to bring the scenes over is open: it carries what the
/// answer is about, each as a document.
pub open spec fn open_question(devices: Json, rules: Json, scenes: Json) -> Json {
    Json::Object(
        Map::empty().insert("phase"@, Json::Str(SCENE_CHOICE@)).insert("devices"@, devices).insert(
            "rules"@,
            rules,
        ).insert("scenes"@, scenes),
    )
}

/// The answer to the question whether to bring the scenes over.
pub open spec fn scene_choice_step(input: Map<Seq<char>, Json>, read: ReadBackView) -> (
    StepView,
    NextView,
) {
    let take = str_in(at(input, "scenes"@)) matches Some(choice) && stands_at(choice, "Bring"@, 0);
    (
        StepView::Done {
            devices: read.devices,
            rules: read.rules,
            scenes: if take {
                read.scenes
            } else {
                Seq::empty()
            },
        },
        NextView::Document(Json::Null),
    )
}

/// One step of the flow.
pub open spec fn step_outcome(
    state: Json,
    input: Map<Seq<char>, Json>,
    read: ReadBackView,
    answer: AnswerView,
) -> (StepView, NextView) {
    let phase = phase_of(state);
    let address = address_in(state, input);
    let key = carried_text(state, "key"@, ""@);
    let response = at(input, "response"@);
    if phase == "start"@ {
        if browsing(state) {
            browse_step(state)
        } else {
            address_asked(state)
        }
    } else if phase == "probe"@ {
        match address_known(state, input) {
            None => address_asked(state),
            Some(address) => probe_step(address),
        }
    } else if phase == "probed"@ {
        probed_step(address, response)
    } else if phase == "pair"@ {
        pair_step(address, state)
    } else if phase == "paired"@ {
        paired_step(address, state, response)
    } else if phase == "devices"@ {
        catalog_step(
            address,
            key,
            state,
            "button"@,
            "reading the buttons"@,
            "buttons"@,
            answer.catalog,
        )
    } else if phase == "buttons"@ {
        catalog_step(
            address,
            key,
            state,
            "room"@,
            "reading the rooms"@,
            "rooms"@,
            answer.catalog,
        )
    } else if phase == "rooms"@ {
        names_step(
            address,
            key,
            state,
            "zone"@,
            "reading the zones"@,
            "zones"@,
            answer.catalog,
            answer.names,
        )
    } else if phase == "zones"@ {
        names_step(
            address,
            key,
            state,
            "behavior_instance"@,
            "reading what the switches already control"@,
            "behaviors"@,
            answer.catalog,
            answer.names,
        )
    } else if phase == "behaviors"@ {
        names_step(
            address,
            key,
            state,
            "scene"@,
            "reading the scenes"@,
            "hue_scenes"@,
            answer.catalog,
            or_null(state.get("rooms"@)),
        )
    } else if phase == "hue_scenes"@ {
        (
            fetching(address, "light"@, key, "reading the light list"@),
            NextView::Document(carried_scenes("lights"@, address, key, state, response)),
        )
    } else if phase == "lights"@ {
        lights_step(address, key, state, response, answer)
    } else if phase == "chosen"@ {
        scenes_asked(adopted(address, key, state, read.chosen), answer.rules, answer.scenes)
    } else if phase == SCENE_CHOICE@ {
        scene_choice_step(input, read)
    } else {
        failing("unknown setup phase `"@ + phase + "`"@)
    }
}

/// One step of looking for a bridge, which every driver id takes alike.
pub open spec fn discovery(
    driver_id: Seq<char>,
    state: Json,
    input: Map<Seq<char>, Json>,
    read: ReadBackView,
    answer: AnswerView,
) -> (StepView, NextView) {
    step_outcome(state, input, read, answer)
}

/// One step of setting a bridge up, which every driver id takes alike.
pub open spec fn setting_up(
    driver_id: Seq<char>,
    state: Json,
    input: Map<Seq<char>, Json>,
    read: ReadBackView,
    answer: AnswerView,
) -> (StepView, NextView) {
    step_outcome(state, input, read, answer)
}

/// What has to be asked of the catalog before a step can be taken.
pub open spec fn question_of(
    state: Json,
    input: Map<Seq<char>, Json>,
    chosen: Seq<CandidateView>,
) -> QuestionView {
    let phase = phase_of(state);
    let address = address_in(state, input);
    let key = carried_text(state, "key"@, ""@);
    let response = at(input, "response"@);
    let catalog = state.items_at("catalog"@);
    if phase == "devices"@ {
        QuestionView::Devices { response }
    } else if phase == "buttons"@ {
        QuestionView::Buttons { catalog, response }
    } else if phase == "rooms"@ {
        QuestionView::Rooms { catalog, response }
    } else if phase == "zones"@ {
        QuestionView::Zones { catalog, response, rooms: state.get("rooms"@) }
    } else if phase == "behaviors"@ {
        QuestionView::Behaviors { catalog, response, rooms: or_null(state.get("rooms"@)) }
    } else if phase == "lights"@ && light_list_error(response) is None {
        QuestionView::Offer {
            catalog,
            lights: items_in(get_in(response, "data"@)).filter_map(
                |light: Json| light.str_at("id"@),
            ),
            address,
            key,
        }
    } else if phase == "chosen"@ {
        // Rules are built against the list that the host is handed; browsing, what identifies a
        // device is still there to be read.
        QuestionView::Adopt {
            catalog,
            devices: if browsing(state) {
                chosen
            } else {
                adopted(address, key, state, chosen)
            },
            scenes: state.get("hue_scenes"@),
        }
    } else {
        QuestionView::Nothing
    }
}

fn copy_of(o: Option<&JsonValue>) -> (r: Option<JsonValue>)
    ensures
        seen(r) == json_in(o),
{
    match o {
        Some(v) => Some(v.clone()),
        None => None,
    }
}

fn list_of(o: Option<&Vec<JsonValue>>) -> (r: Vec<JsonValue>)
    ensures
        jsons(r@) == listed(o),
{
    let mut out: Vec<JsonValue> = Vec::new();
    if let Some(items) = o {
        let mut i: usize = 0;
        while i < items.len()
            invariant
                i <= items.len(),
                out.len() == i,
                forall|k: int| 0 <= k < i ==> json_of(out@[k]) == json_of(items@[k]),
            decreases items.len() - i,
        {
            out.push(items[i].clone());
            i += 1;
        }
    }
    assert(jsons(out@) =~= listed(o));
    out
}

fn json_list(items: Vec<JsonValue>) -> (r: JsonValue)
    ensures
        r@ == Json::Array(jsons(items@)),
{
    let r = JsonValue::Array(items);
    assert(r@->Array_0 =~= jsons(items@));
    r
}

fn first_of(o: Option<&JsonValue>) -> (r: Option<&JsonValue>)
    ensures
        json_in(r) == first_item(json_in(o)),
{
    match o {
        Some(v) => match v.as_array() {
            Some(items) => {
                if items.len() > 0 {
                    Some(&items[0])
                } else {
                    None
                }
            },
            None => None,
        },
        None => None,
    }
}

fn find_address(state: &JsonValue, input: &Record) -> (r: Option<String>)
    ensures
        seen(r) == address_known(state@, input@),
{
    match state.str_at("address") {
        Some(address) => Some(address.to_owned()),
        None => match str_of(input.get("address")) {
            Some(typed) => Some(trim(typed)),
            None => None,
        },
    }
}

fn is_browsing(state: &JsonValue) -> (r: bool)
    ensures
        r == browsing(state@),
{
    match bool_of(state.get("browse")) {
        Some(browse) => browse,
        None => false,
    }
}

fn carry(phase: &str, address: &str, key: &str, state: &JsonValue) -> (r: Record)
    ensures
        r@ == carried(phase@, address@, key@, state@),
{
    Record::new().with("phase", json_text(phase)).with("address", json_text(address)).with(
        "key",
        json_text(key),
    ).with("browse", JsonValue::Bool(is_browsing(state))).with(
        "parent",
        or_null_of(state.get("parent")),
    )
}

fn fetch(address: &str, collection: &str, key: &str, note: &str) -> (r: SetupStep)
    ensures
        r@ == fetching(address@, collection@, key@, note@),
{
    let url = "https://".to_owned().concat(address).concat("/clip/v2/resource/").concat(
        collection,
    );
    SetupStep::Fetch {
        request: HttpRequest::with_key("GET", url.as_str(), key, None),
        note: note.to_owned(),
    }
}

fn fail(reason: &str) -> (r: (SetupStep, NextState))
    ensures
        (r.0@, r.1@) == failing(reason@),
{
    (SetupStep::Failed { reason: reason.to_owned() }, NextState::Document(JsonValue::Null))
}

fn browse(state: &JsonValue) -> (r: (SetupStep, NextState))
    ensures
        (r.0@, r.1@) == browse_step(state@),
{
    let address = carried_or(state, "Bridge address", "");
    let key = carried_or(state, "Application key", "");
    if address.is_empty() || key.is_empty() {
        return fail("this bridge has no address or key set — pair it first");
    }
    (
        fetch(address, "device", key, "reading what is paired to the bridge"),
        NextState::Document(JsonValue::Object(carry("devices", address, key, state))),
    )
}

fn probe(address: &str) -> (r: (SetupStep, NextState))
    ensures
        (r.0@, r.1@) == probe_step(address@),
{
    let url = "https://".to_owned().concat(address).concat("/api/config");
    let next = Record::new().with("phase", json_text("probed")).with(
        "address",
        json_text(address),
    );
    (
        SetupStep::Fetch {
            request: HttpRequest::new("GET", url.as_str()),
            note: "checking the bridge".to_owned(),
        },
        NextState::Document(JsonValue::Object(next)),
    )
}

fn probed(address: &str, response: Option<&JsonValue>) -> (r: (SetupStep, NextState))
    ensures
        (r.0@, r.1@) == probed_step(address@, json_in(response)),
{
    let model = match str_of(get_of(response, "modelid")) {
        Some(model) => model,
        None => "",
    };
    if !starts_with(model, "BSB") {
        let reason = address.to_owned().concat(
            " did not answer as a Hue bridge. Check the address — the Hue app shows it under Settings → My Hue System.",
        );
        return fail(reason.as_str());
    }
    let name = match str_of(get_of(response, "name")) {
        Some(name) => name,
        None => "Hue Bridge",
    };
    let next = Record::new().with("phase", json_text("pair")).with(
        "address",
        json_text(address),
    ).with("name", json_text(name));
    (
        SetupStep::Instruct {
            title: "Press the link button on ".to_owned().concat(name),
            body: "The round button on top.".to_owned(),
            continue_label: "I pressed it".to_owned(),
        },
        NextState::Document(JsonValue::Object(next)),
    )
}

fn pair(address: &str, state: &JsonValue) -> (r: (SetupStep, NextState))
    requires
        attempts(state@, 0) < u64::MAX,
    ensures
        (r.0@, r.1@) == pair_step(address@, state@),
{
    let url = "https://".to_owned().concat(address).concat("/api");
    let body = Record::new().with("devicetype", json_text("juno#controller")).with(
        "generateclientkey",
        JsonValue::Bool(true),
    );
    let mut request = HttpRequest::new("POST", url.as_str());
    request.body = Some(json_string(&JsonValue::Object(body)));
    let attempt: u64 = u64_or_of(state.get("attempt"), 0) + 1;
    let next = Record::new().with("phase", json_text("paired")).with(
        "address",
        json_text(address),
    ).with("attempt", json_uint(attempt));
    (
        SetupStep::Fetch { request, note: "pairing".to_owned() },
        NextState::Document(JsonValue::Object(next)),
    )
}

fn paired(address: &str, state: &JsonValue, response: Option<&JsonValue>) -> (r: (
    SetupStep,
    NextState,
))
    ensures
        (r.0@, r.1@) == paired_step(address@, state@, json_in(response)),
{
    let first = first_of(response);
    if let Some(key) = str_of(get_of(get_of(first, "success"), "username")) {
        let next = Record::new().with("phase", json_text("devices")).with(
            "address",
            json_text(address),
        ).with("key", json_text(key));
        return (
            fetch(address, "device", key, "reading what is paired to the bridge"),
            NextState::Document(JsonValue::Object(next)),
        );
    }
    let description = match str_of(get_of(get_of(first, "error"), "description")) {
        Some(description) => description,
        None => "the bridge did not answer",
    };
    if !contains(description, "link button") {
        return fail(description);
    }
    let attempt: u64 = u64_or_of(state.get("attempt"), 1);
    if attempt < 30 {
        let next = Record::new().with("phase", json_text("pair")).with(
            "address",
            json_text(address),
        ).with("attempt", json_uint(attempt));
        return (
            SetupStep::Wait {
                title: "Waiting for the link button".to_owned(),
                body: "Press the round button on top of the bridge.".to_owned(),
                retry_ms: 1000,
            },
            NextState::Document(JsonValue::Object(next)),
        );
    }
    fail("the link button was not pressed in time — start again")
}

fn carry_catalog(
    address: &str,
    key: &str,
    state: &JsonValue,
    collection: &str,
    note: &str,
    phase: &str,
    catalog: Vec<JsonValue>,
) -> (r: (SetupStep, NextState))
    ensures
        (r.0@, r.1@) == catalog_step(
            address@,
            key@,
            state@,
            collection@,
            note@,
            phase@,
            jsons(catalog@),
        ),
{
    let next = carry(phase, address, key, state).with("catalog", json_list(catalog));
    (fetch(address, collection, key, note), NextState::Document(JsonValue::Object(next)))
}

fn carry_names(
    address: &str,
    key: &str,
    state: &JsonValue,
    collection: &str,
    note: &str,
    phase: &str,
    catalog: Vec<JsonValue>,
    names: JsonValue,
) -> (r: (SetupStep, NextState))
    ensures
        (r.0@, r.1@) == names_step(
            address@,
            key@,
            state@,
            collection@,
            note@,
            phase@,
            jsons(catalog@),
            names@,
        ),
{
    let next = carry(phase, address, key, state).with("catalog", json_list(catalog)).with(
        "rooms",
        names,
    );
    (fetch(address, collection, key, note), NextState::Document(JsonValue::Object(next)))
}

fn carry_scenes(
    phase: &str,
    address: &str,
    key: &str,
    state: &JsonValue,
    scenes: Option<&JsonValue>,
) -> (r: JsonValue)
    ensures
        r@ == carried_scenes(phase@, address@, key@, state@, json_in(scenes)),
{
    JsonValue::Object(
        carry(phase, address, key, state).with("catalog", or_null_of(state.get("catalog"))).with(
            "rooms",
            or_null_of(state.get("rooms")),
        ).with("hue_scenes", or_null_of(scenes)),
    )
}

fn list_error(response: Option<&JsonValue>) -> (r: Option<&str>)
    ensures
        text_of(r) == light_list_error(json_in(response)),
{
    str_of(get_of(first_of(get_of(response, "errors")), "description"))
}

fn data_in(response: Option<&JsonValue>) -> (r: Option<&Vec<JsonValue>>)
    ensures
        listed(r) == items_in(get_in(json_in(response), "data"@)),
{
    match get_of(response, "data") {
        Some(v) => v.as_array(),
        None => None,
    }
}

fn choose_lights(
    address: &str,
    key: &str,
    state: &JsonValue,
    response: Option<&JsonValue>,
    answer: CatalogAnswer,
) -> (r: (SetupStep, NextState))
    ensures
        (r.0@, r.1@) == lights_step(address@, key@, state@, json_in(response), answer@),
{
    if let Some(error) = list_error(response) {
        let reason = "the bridge refused the light list: ".to_owned().concat(error);
        return fail(reason.as_str());
    }
    let mut options = offer_lights(data_in(response), address, key, &answer.rooms);
    let mut extras = answer.accessories;
    if options.len() == 0 && extras.len() == 0 {
        return fail(
            "the bridge reported nothing paired to it — add your lights and accessories in the Hue app first",
        );
    }
    let title = title_of(options.len(), extras.len());
    options.append(&mut extras);
    (
        SetupStep::Choose {
            title,
            body: "Anything the bridge cannot reach is marked.".to_owned(),
            options,
            multiple: true,
        },
        NextState::Document(carry_scenes("chosen", address, key, state, state.get("hue_scenes"))),
    )
}

fn adopt(address: &str, key: &str, state: &JsonValue, chosen: Vec<Candidate>) -> (r: Vec<
    Candidate,
>)
    ensures
        views(r@) == adopted(address@, key@, state@, views(chosen@)),
{
    let mut devices: Vec<Candidate> = Vec::new();
    if !is_browsing(state) {
        devices.push(
            bridge_device(carried_or(state, "name", "Hue Bridge"), address, key, chosen.len()),
        );
    }
    append_stripped(&mut devices, chosen);
    assert(views(devices@) =~= adopted(address@, key@, state@, views(chosen@)));
    devices
}

fn choose_scenes(input: &Record, read: ReadBack) -> (r: (SetupStep, NextState))
    ensures
        (r.0@, r.1@) == scene_choice_step(input@, read@),
{
    let take = match str_of(input.get("scenes")) {
        Some(choice) => starts_with(choice, "Bring"),
        None => false,
    };
    let scenes = if take {
        read.scenes
    } else {
        Vec::new()
    };
    (
        SetupStep::Done { devices: read.devices, rules: read.rules, scenes },
        NextState::Document(JsonValue::Null),
    )
}

/// The state in which the question whether to bring the scenes over is open, from the documents
/// of what [`NextState::SceneChoice`] carries.
pub fn scene_question(devices: JsonValue, rules: JsonValue, scenes: JsonValue) -> (r: JsonValue)
    ensures
        r@ == open_question(devices@, rules@, scenes@),
{
    JsonValue::Object(
        Record::new().with("phase", json_text(SCENE_CHOICE)).with("devices", devices).with(
            "rules",
            rules,
        ).with("scenes", scenes),
    )
}

fn ids_of(data: Option<&Vec<JsonValue>>) -> (r: Vec<String>)
    ensures
        texts(r@) == listed(data).filter_map(|light: Json| light.str_at("id"@)),
{
    let mut out: Vec<String> = Vec::new();
    let ghost f = |light: Json| light.str_at("id"@);
    let ghost all = listed(data);
    assert(texts(out@) =~= all.take(0).filter_map(f)) by {
        reveal_with_fuel(Seq::filter_map, 1);
    }
    if let Some(data) = data {
        let mut i: usize = 0;
        while i < data.len()
            invariant
                i <= data.len(),
                all == jsons(data@),
                f == (|light: Json| light.str_at("id"@)),
                texts(out@) == all.take(i as int).filter_map(f),
            decreases data.len() - i,
        {
            proof {
                all.lemma_filter_map_take_succ(f, i as int);
            }
            let ghost before = out@;
            if let Some(id) = data[i].str_at("id") {
                out.push(id.to_owned());
                assert(texts(out@) =~= texts(before).push(id@));
            }
            i += 1;
        }
    }
    assert(all.take(all.len() as int) =~= all);
    out
}

/// What has to be asked of the catalog before a step can be taken. `chosen` are the candidates
/// that the input names.
pub fn catalog_question(state: &JsonValue, input: &Record, chosen: Vec<Candidate>) -> (r:
    CatalogQuestion)
    ensures
        r@ == question_of(state@, input@, views(chosen@)),
{
    let phase = phase(state);
    let address = match find_address(state, input) {
        Some(address) => address,
        None => "".to_owned(),
    };
    let key = carried_or(state, "key", "");
    let response = input.get("response");
    let catalog = list_of(state.items_at("catalog"));
    if same(phase, "devices") {
        CatalogQuestion::Devices { response: copy_of(response) }
    } else if same(phase, "buttons") {
        CatalogQuestion::Buttons { catalog, response: copy_of(response) }
    } else if same(phase, "rooms") {
        CatalogQuestion::Rooms { catalog, response: copy_of(response) }
    } else if same(phase, "zones") {
        CatalogQuestion::Zones {
            catalog,
            response: copy_of(response),
            rooms: copy_of(state.get("rooms")),
        }
    } else if same(phase, "behaviors") {
        CatalogQuestion::Behaviors {
            catalog,
            response: copy_of(response),
            rooms: or_null_of(state.get("rooms")),
        }
    } else if same(phase, "lights") && list_error(response).is_none() {
        CatalogQuestion::Offer {
            catalog,
            lights: ids_of(data_in(response)),
            address,
            key: key.to_owned(),
        }
    } else if same(phase, "chosen") {
        let devices = if is_browsing(state) {
            chosen
        } else {
            adopt(address.as_str(), key, state, chosen)
        };
        CatalogQuestion::Adopt { catalog, devices, scenes: copy_of(state.get("hue_scenes")) }
    } else {
        CatalogQuestion::Nothing
    }
}

impl HueBulb {
    /// One step of the flow. Everything that only a Hue bridge wants is here rather than in the
    /// host. `answer` is what the catalog answered to [`catalog_question`].
    pub fn step(
        &self,
        state: &JsonValue,
        input: &Record,
        read: ReadBack,
        answer: CatalogAnswer,
    ) -> (r: (SetupStep, NextState))
        requires
            phase_of(state@) == "pair"@ ==> attempts(state@, 0) < u64::MAX,
        ensures
            (r.0@, r.1@) == step_outcome(state@, input@, read@, answer@),
    {
        let phase = phase(state);
        if same(phase, "start") {
            return if is_browsing(state) {
                browse(state)
            } else {
                HueBulb::ask_for_address(state)
            };
        }
        let known = find_address(state, input);
        if same(phase, "probe") {
            return match known {
                Some(address) => probe(address.as_str()),
                None => HueBulb::ask_for_address(state),
            };
        }
        let address = match known {
            Some(address) => address,
            None => "".to_owned(),
        };
        let address = address.as_str();
        let key = carried_or(state, "key", "");
        let response = input.get("response");
        if same(phase, "probed") {
            probed(address, response)
        } else if same(phase, "pair") {
            pair(address, state)
        } else if same(phase, "paired") {
            paired(address, state, response)
        } else if same(phase, "devices") {
            carry_catalog(
                address,
                key,
                state,
                "button",
                "reading the buttons",
                "buttons",
                answer.catalog,
            )
        } else if same(phase, "buttons") {
            carry_catalog(
                address,
                key,
                state,
                "room",
                "reading the rooms",
                "rooms",
                answer.catalog,
            )
        } else if same(phase, "rooms") {
            carry_names(
                address,
                key,
                state,
                "zone",
                "reading the zones",
                "zones",
                answer.catalog,
                answer.names,
            )
        } else if same(phase, "zones") {
            carry_names(
                address,
                key,
                state,
                "behavior_instance",
                "reading what the switches already control",
                "behaviors",
                answer.catalog,
                answer.names,
            )
        } else if same(phase, "behaviors") {
            carry_names(
                address,
                key,
                state,
                "scene",
                "reading the scenes",
                "hue_scenes",
                answer.catalog,
                or_null_of(state.get("rooms")),
            )
        } else if same(phase, "hue_scenes") {
            (
                fetch(address, "light", key, "reading the light list"),
                NextState::Document(carry_scenes("lights", address, key, state, response)),
            )
        } else if same(phase, "lights") {
            choose_lights(address, key, state, response, answer)
        } else if same(phase, "chosen") {
            ask_about_scenes(
                adopt(address, key, state, read.chosen),
                answer.rules,
                answer.scenes,
            )
        } else if same(phase, SCENE_CHOICE) {
            choose_scenes(input, read)
        } else {
            let reason = "unknown setup phase `".to_owned().concat(phase).concat("`");
            fail(reason.as_str())
        }
    }

    /// Looking for a bridge, for the driver of the given id. The flow is the same for all of them.
    pub fn discover(
        &self,
        _driver_id: &str,
        state: &JsonValue,
        input: &Record,
        read: ReadBack,
        answer: CatalogAnswer,
    ) -> (r: (SetupStep, NextState))
        requires
            phase_of(state@) == "pair"@ ==> attempts(state@, 0) < u64::MAX,
        ensures
            (r.0@, r.1@) == discovery(_driver_id@, state@, input@, read@, answer@),
    {
        self.step(state, input, read, answer)
    }

    /// Setting a bridge up, for the driver of the given id. The flow is the same for all of them.
    pub fn setup(
        &self,
        _driver_id: &str,
        state: &JsonValue,
        input: &Record,
        read: ReadBack,
        answer: CatalogAnswer,
    ) -> (r: (SetupStep, NextState))
        requires
            phase_of(state@) == "pair"@ ==> attempts(state@, 0) < u64::MAX,
        ensures
            (r.0@, r.1@) == setting_up(_driver_id@, state@, input@, read@, answer@),
    {
        self.step(state, input, read, answer)
    }
}

} // verus!
