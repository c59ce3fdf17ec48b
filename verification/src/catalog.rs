//! What setup asks of the catalog of what is paired to a bridge, and what it is handed from
//! documents.
use vstd::prelude::*;

use crate::json::{jsons, Json, JsonValue, Record};
use crate::order::texts;
use crate::setup::{
    Candidate, CandidateView, ImportedRule, ImportedScene, ImportedSceneView,
};
use crate::views::{seen, views};

verus! {

/// What was read back out of documents: the candidates that were chosen, and what the last
/// question carried. Each is empty where it could not be read.
#[derive(Clone, Debug)]
pub struct ReadBack {
    pub chosen: Vec<Candidate>,
    pub devices: Vec<Candidate>,
    pub rules: Vec<ImportedRule>,
    pub scenes: Vec<ImportedScene>,
}

#[verifier::ext_equal]
pub ghost struct ReadBackView {
    pub chosen: Seq<CandidateView>,
    pub devices: Seq<CandidateView>,
    pub rules: Seq<Json>,
    pub scenes: Seq<ImportedSceneView>,
}

impl View for ReadBack {
    type V = ReadBackView;

    open spec fn view(&self) -> ReadBackView {
        ReadBackView {
            chosen: views(self.chosen@),
            devices: views(self.devices@),
            rules: views(self.rules@),
            scenes: views(self.scenes@),
        }
    }
}

/// What the catalog of the bridge's devices has to answer before a step can be taken.
#[derive(Clone, Debug)]
pub enum CatalogQuestion {
    /// Nothing.
    Nothing,
    /// The devices that an answer of the bridge lists.
    Devices { response: Option<JsonValue> },
    /// The catalog with the buttons of each device in order.
    Buttons { catalog: Vec<JsonValue>, response: Option<JsonValue> },
    /// The catalog with each device in its room, and the names of the rooms.
    Rooms { catalog: Vec<JsonValue>, response: Option<JsonValue> },
    /// The catalog with each device that has no room in its zone, and the names of the zones
    /// joined to those of the rooms.
    Zones { catalog: Vec<JsonValue>, response: Option<JsonValue>, rooms: Option<JsonValue> },
    /// The catalog with what the bridge's automations say of each device.
    Behaviors { catalog: Vec<JsonValue>, response: Option<JsonValue>, rooms: JsonValue },
    /// The room of each light, and the accessories.
    Offer { catalog: Vec<JsonValue>, lights: Vec<String>, address: String, key: String },
    /// The rules and the scenes that concern devices.
    Adopt { catalog: Vec<JsonValue>, devices: Vec<Candidate>, scenes: Option<JsonValue> },
}

#[verifier::ext_equal]
pub ghost enum QuestionView {
    Nothing,
    Devices { response: Option<Json> },
    Buttons { catalog: Seq<Json>, response: Option<Json> },
    Rooms { catalog: Seq<Json>, response: Option<Json> },
    Zones { catalog: Seq<Json>, response: Option<Json>, rooms: Option<Json> },
    Behaviors { catalog: Seq<Json>, response: Option<Json>, rooms: Json },
    Offer { catalog: Seq<Json>, lights: Seq<Seq<char>>, address: Seq<char>, key: Seq<char> },
    Adopt { catalog: Seq<Json>, devices: Seq<CandidateView>, scenes: Option<Json> },
}

impl View for CatalogQuestion {
    type V = QuestionView;

    open spec fn view(&self) -> QuestionView {
        match self {
            CatalogQuestion::Nothing => QuestionView::Nothing,
            CatalogQuestion::Devices { response } => QuestionView::Devices {
                response: seen(*response),
            },
            CatalogQuestion::Buttons { catalog, response } => QuestionView::Buttons {
                catalog: jsons(catalog@),
                response: seen(*response),
            },
            CatalogQuestion::Rooms { catalog, response } => QuestionView::Rooms {
                catalog: jsons(catalog@),
                response: seen(*response),
            },
            CatalogQuestion::Zones { catalog, response, rooms } => QuestionView::Zones {
                catalog: jsons(catalog@),
                response: seen(*response),
                rooms: seen(*rooms),
            },
            CatalogQuestion::Behaviors { catalog, response, rooms } => QuestionView::Behaviors {
                catalog: jsons(catalog@),
                response: seen(*response),
                rooms: rooms@,
            },
            CatalogQuestion::Offer { catalog, lights, address, key } => QuestionView::Offer {
                catalog: jsons(catalog@),
                lights: texts(lights@),
                address: address@,
                key: key@,
            },
            CatalogQuestion::Adopt { catalog, devices, scenes } => QuestionView::Adopt {
                catalog: jsons(catalog@),
                devices: views(devices@),
                scenes: seen(*scenes),
            },
        }
    }
}

/// What the catalog answered. Each question uses the parts that it asked for.
#[derive(Clone, Debug)]
pub struct CatalogAnswer {
    /// The catalog as it now is.
    pub catalog: Vec<JsonValue>,
    /// The names of rooms and zones.
    pub names: JsonValue,
    /// The room of each light, by its id.
    pub rooms: Record,
    /// What is not a light, in order.
    pub accessories: Vec<Candidate>,
    /// The rules that concern the devices.
    pub rules: Vec<ImportedRule>,
    /// The scenes that concern the devices.
    pub scenes: Vec<ImportedScene>,
}

#[verifier::ext_equal]
pub ghost struct AnswerView {
    pub catalog: Seq<Json>,
    pub names: Json,
    pub rooms: Map<Seq<char>, Json>,
    pub accessories: Seq<CandidateView>,
    pub rules: Seq<Json>,
    pub scenes: Seq<ImportedSceneView>,
}

impl View for CatalogAnswer {
    type V = AnswerView;

    open spec fn view(&self) -> AnswerView {
        AnswerView {
            catalog: jsons(self.catalog@),
            names: self.names@,
            rooms: self.rooms@,
            accessories: views(self.accessories@),
            rules: views(self.rules@),
            scenes: views(self.scenes@),
        }
    }
}

} // verus!
