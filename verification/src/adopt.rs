//! Which devices setup offers, and what becomes of the ones that are chosen.
use vstd::prelude::*;
use vstd::string::*;

use crate::capability::{bulb_capabilities, bulb_shape, capabilities, shape};
use crate::json::{
    bool_in, bool_of, get_in, get_of, json_text, jsons, listed, str_in, str_of, text_arg, text_at,
    Json, JsonValue, Record,
};
use crate::order::{in_order, lemma_text_order, text_le, texts};
use crate::setup::{
    Candidate, CandidateView, Field, FieldView, ImportedRule, ImportedScene, ImportedSceneView,
    NextState, NextView, SetupStep, StepView,
};
use crate::text::{decimal, decimal_text};
use crate::views::{group_views, seen, views};

verus! {

broadcast use group_views;

/// The properties by which a device reaches the bridge.
pub open spec fn connection(address: Seq<char>, key: Seq<char>) -> Map<Seq<char>, Json> {
    Map::empty().insert("Bridge address"@, Json::Str(address)).insert(
        "Application key"@,
        Json::Str(key),
    )
}

/// One light of the bridge as a device to adopt, in the room that the catalog gives it. A word is
/// said only of what kind of light it is, or that the bridge cannot see it.
pub open spec fn light_candidate(
    light: Json,
    address: Seq<char>,
    key: Seq<char>,
    rooms: Map<Seq<char>, Json>,
) -> Option<CandidateView> {
    match light.str_at("id"@) {
        None => None,
        Some(id) => Some(
            CandidateView {
                label: match str_in(get_in(light.get("metadata"@), "name"@)) {
                    Some(name) => name,
                    None => "Hue light"@,
                },
                kind: "light"@,
                driver_id: "signify.hue.light"@,
                capabilities: capabilities(light),
                properties: connection(address, key).insert("Light id"@, Json::Str(id)),
                verified: match bool_in(get_in(light.get("on"@), "on"@)) {
                    None => "cannot be reached — is it powered?"@,
                    Some(_) => shape(light),
                },
                room: text_at(rooms, id),
            },
        ),
    }
}

/// A list in the order of its labels, with one more candidate put behind those that come before
/// it or are labelled the same.
pub open spec fn placed(list: Seq<CandidateView>, c: CandidateView) -> Seq<CandidateView>
    decreases list.len(),
{
    if list.len() == 0 || text_le(list.last().label, c.label) {
        list.push(c)
    } else {
        placed(list.drop_last(), c).push(list.last())
    }
}

/// Candidates in the order of their labels. Those labelled the same stay as they came.
pub open spec fn by_label(list: Seq<CandidateView>) -> Seq<CandidateView>
    decreases list.len(),
{
    if list.len() == 0 {
        Seq::empty()
    } else {
        placed(by_label(list.drop_last()), list.last())
    }
}

/// The lights of the bridge as devices to adopt.
pub open spec fn light_options(
    data: Seq<Json>,
    address: Seq<char>,
    key: Seq<char>,
    rooms: Map<Seq<char>, Json>,
) -> Seq<CandidateView> {
    by_label(data.filter_map(|light: Json| light_candidate(light, address, key, rooms)))
}

/// Candidates are in the order of their labels.
pub open spec fn labels_rise(list: Seq<CandidateView>) -> bool {
    forall|i: int, j: int|
        #![trigger list[i], list[j]]
        0 <= i <= j < list.len() ==> text_le(list[i].label, list[j].label)
}

proof fn lemma_placed(list: Seq<CandidateView>, c: CandidateView)
    requires
        labels_rise(list),
    ensures
        labels_rise(placed(list, c)),
        placed(list, c).len() == list.len() + 1,
        placed(list, c).to_multiset() == list.to_multiset().insert(c),
        forall|k: int|
            0 <= k < placed(list, c).len() ==> (#[trigger] placed(list, c)[k] == c
                || list.contains(placed(list, c)[k])),
    decreases list.len(),
{
    broadcast use vstd::seq_lib::group_to_multiset_ensures;

    let r = placed(list, c);
    if list.len() == 0 || text_le(list.last().label, c.label) {
        assert forall|i: int, j: int|
            #![trigger r[i], r[j]]
            0 <= i <= j < r.len() implies text_le(r[i].label, r[j].label) by {
            if i < j && j == list.len() {
                lemma_text_order(list[i].label, list.last().label, c.label);
            } else {
                lemma_text_order(r[i].label, r[i].label, c.label);
            }
        }
    } else {
        let rest = list.drop_last();
        lemma_placed(rest, c);
        let front = placed(rest, c);
        let last = list.last();
        assert forall|i: int, j: int|
            #![trigger r[i], r[j]]
            0 <= i <= j < r.len() implies text_le(r[i].label, r[j].label) by {
            if i < j && j == front.len() {
                assert(r[i] == front[i]);
                if front[i] == c {
                    lemma_text_order(last.label, c.label, c.label);
                } else {
                    let k = choose|k: int| 0 <= k < rest.len() && rest[k] == front[i];
                    assert(list[k] == front[i]);
                }
            } else if i == j {
                lemma_text_order(r[i].label, r[i].label, c.label);
            }
        }
        assert(list =~= rest.push(last));
        assert forall|k: int| 0 <= k < r.len() implies (#[trigger] r[k] == c || list.contains(
            r[k],
        )) by {
            if k < front.len() {
                assert(r[k] == front[k]);
                if front[k] != c {
                    let m = choose|m: int| 0 <= m < rest.len() && rest[m] == front[k];
                    assert(list[m] == r[k]);
                }
            } else {
                assert(list[list.len() - 1] == r[k]);
            }
        }
    }
}

/// The candidates with a label, as they stand in a list.
pub open spec fn labelled(list: Seq<CandidateView>, label: Seq<char>) -> Seq<CandidateView> {
    list.filter(|c: CandidateView| c.label == label)
}

proof fn lemma_labelled_push(list: Seq<CandidateView>, c: CandidateView, label: Seq<char>)
    ensures
        labelled(list.push(c), label) == if c.label == label {
            labelled(list, label).push(c)
        } else {
            labelled(list, label)
        },
{
    reveal(Seq::filter);
    assert(list.push(c).drop_last() =~= list);
}

proof fn lemma_placed_is_stable(list: Seq<CandidateView>, c: CandidateView, label: Seq<char>)
    ensures
        labelled(placed(list, c), label) == labelled(list.push(c), label),
    decreases list.len(),
{
    if list.len() > 0 && !text_le(list.last().label, c.label) {
        let rest = list.drop_last();
        let last = list.last();
        lemma_placed_is_stable(rest, c, label);
        lemma_text_order(c.label, c.label, c.label);
        assert(list =~= rest.push(last));
        lemma_labelled_push(rest, last, label);
        lemma_labelled_push(rest, c, label);
        lemma_labelled_push(list, c, label);
        lemma_labelled_push(placed(rest, c), last, label);
    }
}

/// Putting candidates in order keeps every one of them, orders them by label, and leaves those
/// labelled the same as they came.
pub proof fn law_by_label(list: Seq<CandidateView>)
    ensures
        labels_rise(by_label(list)),
        by_label(list).to_multiset() == list.to_multiset(),
        forall|label: Seq<char>| #[trigger]
            labelled(by_label(list), label) == labelled(list, label),
    decreases list.len(),
{
    broadcast use vstd::seq_lib::group_to_multiset_ensures;

    if list.len() > 0 {
        let rest = list.drop_last();
        let c = list.last();
        law_by_label(rest);
        lemma_placed(by_label(rest), c);
        assert(list =~= rest.push(c));
        assert forall|label: Seq<char>| #[trigger]
            labelled(by_label(list), label) == labelled(list, label) by {
            lemma_placed_is_stable(by_label(rest), c, label);
            lemma_labelled_push(by_label(rest), c, label);
            lemma_labelled_push(rest, c, label);
        }
    } else {
        assert(list =~= Seq::empty());
    }
}

fn place(list: &mut Vec<Candidate>, c: Candidate)
    ensures
        views(final(list)@) == placed(views(old(list)@), c@),
{
    let ghost before = views(list@);
    let mut i: usize = list.len();
    assert(before.take(i as int) =~= before);
    assert(before.skip(i as int) =~= Seq::empty());
    assert(placed(before, c@) =~= placed(before.take(i as int), c@) + before.skip(i as int));
    while i > 0 && !in_order(list[i - 1].label.as_str(), c.label.as_str())
        invariant
            i <= list.len(),
            views(list@) == before,
            placed(before, c@) == placed(before.take(i as int), c@) + before.skip(i as int),
        decreases i,
    {
        proof {
            assert(before.take(i as int).last() == before[i - 1]);
            assert(before.take(i as int).drop_last() =~= before.take(i - 1));
            assert(placed(before.take(i - 1), c@).push(before[i - 1]) + before.skip(i as int)
                =~= placed(before.take(i - 1), c@) + before.skip(i - 1));
        }
        i -= 1;
    }
    proof {
        if i > 0 {
            assert(before.take(i as int).last() == before[i - 1]);
        }
        assert(placed(before.take(i as int), c@) == before.take(i as int).push(c@));
    }
    let ghost added = c@;
    list.insert(i, c);
    assert(views(list@) =~= before.take(i as int).push(added) + before.skip(i as int));
}

fn candidate_of(light: &JsonValue, address: &str, key: &str, rooms: &Record) -> (r: Option<
    Candidate,
>)
    ensures
        seen(r) == light_candidate(light@, address@, key@, rooms@),
{
    let id = match light.str_at("id") {
        Some(id) => id,
        None => return None,
    };
    let label = match str_of(get_of(light.get("metadata"), "name")) {
        Some(name) => name,
        None => "Hue light",
    };
    let verified = match bool_of(get_of(light.get("on"), "on")) {
        None => "cannot be reached — is it powered?",
        Some(_) => bulb_shape(light),
    };
    Some(
        Candidate {
            label: label.to_owned(),
            kind: "light".to_owned(),
            driver_id: "signify.hue.light".to_owned(),
            capabilities: bulb_capabilities(light),
            properties: connection_of(address, key).with("Light id", json_text(id)),
            verified: verified.to_owned(),
            room: text_arg(rooms, id).to_owned(),
        },
    )
}

fn connection_of(address: &str, key: &str) -> (r: Record)
    ensures
        r@ == connection(address@, key@),
{
    Record::new().with("Bridge address", json_text(address)).with(
        "Application key",
        json_text(key),
    )
}

/// The lights of the bridge as devices to adopt, in the order of their labels.
pub fn offer_lights(
    data: Option<&Vec<JsonValue>>,
    address: &str,
    key: &str,
    rooms: &Record,
) -> (r: Vec<Candidate>)
    ensures
        views(r@) == light_options(listed(data), address@, key@, rooms@),
{
    let mut out: Vec<Candidate> = Vec::new();
    let ghost f = |light: Json| light_candidate(light, address@, key@, rooms@);
    let ghost all = listed(data);
    assert(views(out@) =~= by_label(all.take(0).filter_map(f))) by {
        reveal_with_fuel(Seq::filter_map, 1);
    }
    if let Some(data) = data {
        let mut i: usize = 0;
        while i < data.len()
            invariant
                i <= data.len(),
                all == jsons(data@),
                f == (|light: Json| light_candidate(light, address@, key@, rooms@)),
                views(out@) == by_label(all.take(i as int).filter_map(f)),
            decreases data.len() - i,
        {
            proof {
                all.lemma_filter_map_take_succ(f, i as int);
            }
            if let Some(c) = candidate_of(&data[i], address, key, rooms) {
                proof {
                    let s = all.take(i as int).filter_map(f);
                    assert(all.take(i + 1).filter_map(f) =~= s.push(c@));
                    assert(s.push(c@).drop_last() =~= s);
                    assert(by_label(s.push(c@)) == placed(by_label(s), c@));
                }
                place(&mut out, c);
            }
            i += 1;
        }
    }
    assert(all.take(all.len() as int) =~= all);
    out
}

/// The end of "accessory" or "accessories".
pub open spec fn plural_of(n: nat) -> Seq<char> {
    if n == 1 {
        "y"@
    } else {
        "ies"@
    }
}

/// "accessory" or "accessories", for a count that is only known at runtime.
pub fn plural(n: usize) -> (r: &'static str)
    ensures
        r@ == plural_of(n as nat),
{
    if n == 1 {
        "y"
    } else {
        "ies"
    }
}

/// How many lights and accessories there are to choose from.
pub open spec fn offer_title(lights: nat, extras: nat) -> Seq<char> {
    if extras == 0 {
        decimal(lights) + " light(s) on this bridge"@
    } else if lights == 0 {
        decimal(extras) + " accessor"@ + plural_of(extras) + " on this bridge"@
    } else {
        decimal(lights) + " light(s) and "@ + decimal(extras) + " accessor"@ + plural_of(extras)
            + " on this bridge"@
    }
}

/// How many lights and accessories there are to choose from.
pub fn title_of(lights: usize, extras: usize) -> (r: String)
    ensures
        r@ == offer_title(lights as nat, extras as nat),
{
    if extras == 0 {
        decimal_text(lights as u64).concat(" light(s) on this bridge")
    } else if lights == 0 {
        decimal_text(extras as u64).concat(" accessor").concat(plural(extras)).concat(
            " on this bridge",
        )
    } else {
        decimal_text(lights as u64).concat(" light(s) and ").concat(
            decimal_text(extras as u64).as_str(),
        ).concat(" accessor").concat(plural(extras)).concat(" on this bridge")
    }
}

/// A candidate without what it inherits from the bridge.
pub open spec fn stripped(c: CandidateView) -> CandidateView {
    CandidateView {
        properties: c.properties.remove("Bridge address"@).remove("Application key"@),
        ..c
    }
}

/// Candidates without what they inherit from the bridge.
pub open spec fn all_stripped(list: Seq<CandidateView>) -> Seq<CandidateView> {
    Seq::new(list.len(), |i: int| stripped(list[i]))
}

/// The bridge itself as a device to adopt, which carries the connection for everything behind it.
pub open spec fn bridge_candidate(
    label: Seq<char>,
    address: Seq<char>,
    key: Seq<char>,
    behind: nat,
) -> CandidateView {
    CandidateView {
        label,
        kind: "bridge"@,
        driver_id: "signify.hue.bridge"@,
        capabilities: Map::empty(),
        properties: connection(address, key),
        verified: decimal(behind) + " device(s) behind it"@,
        room: ""@,
    }
}

/// Appends candidates without what they inherit from the bridge.
pub fn append_stripped(list: &mut Vec<Candidate>, chosen: Vec<Candidate>)
    ensures
        views(final(list)@) == views(old(list)@) + all_stripped(views(chosen@)),
{
    let ghost all = views(chosen@);
    let ghost before = views(list@);
    let mut rest = chosen;
    let ghost mut i: int = 0;
    assert(chosen@.skip(0) =~= chosen@);
    assert(views(list@) =~= before + all_stripped(all).take(0));
    while rest.len() > 0
        invariant
            0 <= i <= all.len(),
            all == views(chosen@),
            rest@ == chosen@.skip(i),
            views(list@) == before + all_stripped(all).take(i),
        decreases rest.len(),
    {
        let mut c = rest.remove(0);
        c.properties.remove("Bridge address");
        c.properties.remove("Application key");
        list.push(c);
        proof {
            assert(c@ == all_stripped(all)[i]);
            assert(chosen@.skip(i).remove(0) =~= chosen@.skip(i + 1));
            assert((before + all_stripped(all).take(i)).push(c@) =~= before + all_stripped(
                all,
            ).take(i + 1));
            i = i + 1;
        }
    }
    assert(all_stripped(all).take(i) =~= all_stripped(all));
}

/// The bridge itself as a device to adopt.
pub fn bridge_device(label: &str, address: &str, key: &str, behind: usize) -> (r: Candidate)
    ensures
        r@ == bridge_candidate(label@, address@, key@, behind as nat),
{
    Candidate {
        label: label.to_owned(),
        kind: "bridge".to_owned(),
        driver_id: "signify.hue.bridge".to_owned(),
        capabilities: Record::new(),
        properties: connection_of(address, key),
        verified: decimal_text(behind as u64).concat(" device(s) behind it"),
        room: "".to_owned(),
    }
}

/// Texts, with a comma between each two.
pub open spec fn joined(s: Seq<Seq<char>>) -> Seq<char>
    decreases s.len(),
{
    if s.len() == 0 {
        ""@
    } else if s.len() == 1 {
        s[0]
    } else {
        joined(s.drop_last()) + ", "@ + s.last()
    }
}

/// The titles of scenes.
pub open spec fn titles(scenes: Seq<ImportedSceneView>) -> Seq<Seq<char>> {
    Seq::new(scenes.len(), |i: int| scenes[i].title)
}

/// The titles of the first few scenes, and whether there are more.
pub open spec fn scene_names(scenes: Seq<ImportedSceneView>) -> Seq<char> {
    if scenes.len() > 4 {
        joined(titles(scenes).take(4)) + " and others"@
    } else {
        joined(titles(scenes))
    }
}

/// The field that asks whether to bring scenes over.
pub open spec fn scene_field() -> FieldView {
    FieldView {
        name: "scenes"@,
        label: "Scenes"@,
        kind: "choice"@,
        help: ""@,
        default: Some(Json::Str("Bring them over"@)),
        options: seq!["Bring them over"@, "Leave them"@],
        required: true,
    }
}

/// The last step of setup: done, or first the question whether the bridge's scenes should come
/// too. It is asked only where there are any.
pub open spec fn scenes_asked(
    devices: Seq<CandidateView>,
    rules: Seq<Json>,
    scenes: Seq<ImportedSceneView>,
) -> (StepView, NextView) {
    if scenes.len() == 0 {
        (StepView::Done { devices, rules, scenes }, NextView::Document(Json::Null))
    } else {
        let n = decimal(scenes.len());
        (
            StepView::Form {
                title: "Bring over "@ + n + " scene"@ + (if scenes.len() == 1 {
                    ""@
                } else {
                    "s"@
                }) + "?"@,
                body: "The bridge has "@ + n + " saved — "@ + scene_names(scenes)
                    + ". They stay owned by Hue: Juno can recall them statically or dynamically, but can never edit or delete them. Skipping this changes nothing else; the lights and remotes are added either way."@,
                fields: seq![scene_field()],
            },
            NextView::SceneChoice { devices, rules, scenes },
        )
    }
}

fn join_titles(scenes: &Vec<ImportedScene>, n: usize) -> (r: String)
    requires
        n <= scenes.len(),
    ensures
        r@ == joined(titles(views(scenes@)).take(n as int)),
{
    let ghost all = titles(views(scenes@));
    let mut out = "".to_owned();
    let mut i: usize = 0;
    while i < n
        invariant
            i <= n <= scenes.len(),
            all == titles(views(scenes@)),
            out@ == joined(all.take(i as int)),
        decreases n - i,
    {
        proof {
            assert(all.take(i + 1).drop_last() =~= all.take(i as int));
            assert(all.take(i + 1).last() == all[i as int]);
        }
        if i == 0 {
            out = scenes[i].title.clone();
        } else {
            out = out.concat(", ").concat(scenes[i].title.as_str());
        }
        i += 1;
    }
    out
}

fn name_scenes(scenes: &Vec<ImportedScene>) -> (r: String)
    ensures
        r@ == scene_names(views(scenes@)),
{
    if scenes.len() > 4 {
        join_titles(scenes, 4).concat(" and others")
    } else {
        assert(titles(views(scenes@)).take(scenes.len() as int) =~= titles(views(scenes@)));
        join_titles(scenes, scenes.len())
    }
}

fn ask_field() -> (r: Field)
    ensures
        r@ == scene_field(),
{
    let mut options: Vec<String> = Vec::new();
    options.push("Bring them over".to_owned());
    options.push("Leave them".to_owned());
    assert(texts(options@) =~= seq!["Bring them over"@, "Leave them"@]);
    Field {
        name: "scenes".to_owned(),
        label: "Scenes".to_owned(),
        kind: "choice".to_owned(),
        help: "".to_owned(),
        default: Some(json_text("Bring them over")),
        options,
        required: true,
    }
}

/// Finish, asking first whether the bridge's scenes should come too.
///
/// Asked rather than assumed: a bridge comes with several scenes in every room whether anybody
/// wanted them or not. Not asked at all where there are none.
pub fn ask_about_scenes(
    devices: Vec<Candidate>,
    rules: Vec<ImportedRule>,
    scenes: Vec<ImportedScene>,
) -> (r: (SetupStep, NextState))
    ensures
        (r.0@, r.1@) == scenes_asked(views(devices@), views(rules@), views(scenes@)),
{
    if scenes.is_empty() {
        return (
            SetupStep::Done { devices, rules, scenes },
            NextState::Document(JsonValue::Null),
        );
    }
    let n = decimal_text(scenes.len() as u64);
    let title = "Bring over ".to_owned().concat(n.as_str()).concat(" scene").concat(
        if scenes.len() == 1 {
            ""
        } else {
            "s"
        },
    ).concat("?");
    let body = "The bridge has ".to_owned().concat(n.as_str()).concat(" saved — ").concat(
        name_scenes(&scenes).as_str(),
    ).concat(
        ". They stay owned by Hue: Juno can recall them statically or dynamically, but can never edit or delete them. Skipping this changes nothing else; the lights and remotes are added either way.",
    );
    let mut fields: Vec<Field> = Vec::new();
    fields.push(ask_field());
    (SetupStep::Form { title, body, fields }, NextState::SceneChoice { devices, rules, scenes })
}

} // verus!
