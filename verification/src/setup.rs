//! What setup shows and asks for, and what it finds.
use vstd::prelude::*;

use crate::host::{HttpRequest, HttpRequestView};
use crate::json::{Json, JsonValue, Record};
use crate::order::texts;
use crate::views::{seen, views};

verus! {

/// A device that setup can adopt.
#[derive(Clone, Debug)]
pub struct Candidate {
    pub label: String,
    pub kind: String,
    pub driver_id: String,
    pub capabilities: Record,
    pub properties: Record,
    pub verified: String,
    pub room: String,
}

#[verifier::ext_equal]
pub ghost struct CandidateView {
    pub label: Seq<char>,
    pub kind: Seq<char>,
    pub driver_id: Seq<char>,
    pub capabilities: Map<Seq<char>, Json>,
    pub properties: Map<Seq<char>, Json>,
    pub verified: Seq<char>,
    pub room: Seq<char>,
}

impl View for Candidate {
    type V = CandidateView;

    open spec fn view(&self) -> CandidateView {
        CandidateView {
            label: self.label@,
            kind: self.kind@,
            driver_id: self.driver_id@,
            capabilities: self.capabilities@,
            properties: self.properties@,
            verified: self.verified@,
            room: self.room@,
        }
    }
}

/// A rule that the bridge already has, which is only carried.
#[derive(Clone, Debug)]
pub struct ImportedRule {
    pub rule: JsonValue,
}

impl View for ImportedRule {
    type V = Json;

    open spec fn view(&self) -> Json {
        self.rule@
    }
}

/// A scene that the bridge already has.
#[derive(Clone, Debug)]
pub struct ImportedScene {
    pub title: String,
    pub scene: JsonValue,
}

#[verifier::ext_equal]
pub ghost struct ImportedSceneView {
    pub title: Seq<char>,
    pub scene: Json,
}

impl View for ImportedScene {
    type V = ImportedSceneView;

    open spec fn view(&self) -> ImportedSceneView {
        ImportedSceneView { title: self.title@, scene: self.scene@ }
    }
}

/// A field of a form.
#[derive(Clone, Debug)]
pub struct Field {
    pub name: String,
    pub label: String,
    pub kind: String,
    pub help: String,
    pub default: Option<JsonValue>,
    pub options: Vec<String>,
    pub required: bool,
}

#[verifier::ext_equal]
pub ghost struct FieldView {
    pub name: Seq<char>,
    pub label: Seq<char>,
    pub kind: Seq<char>,
    pub help: Seq<char>,
    pub default: Option<Json>,
    pub options: Seq<Seq<char>>,
    pub required: bool,
}

impl View for Field {
    type V = FieldView;

    open spec fn view(&self) -> FieldView {
        FieldView {
            name: self.name@,
            label: self.label@,
            kind: self.kind@,
            help: self.help@,
            default: seen(self.default),
            options: texts(self.options@),
            required: self.required,
        }
    }
}

/// A row to pick.
#[derive(Clone, Debug)]
pub struct PickRow {
    pub value: String,
    pub cells: Vec<String>,
    pub note: String,
}

#[verifier::ext_equal]
pub ghost struct PickRowView {
    pub value: Seq<char>,
    pub cells: Seq<Seq<char>>,
    pub note: Seq<char>,
}

impl View for PickRow {
    type V = PickRowView;

    open spec fn view(&self) -> PickRowView {
        PickRowView { value: self.value@, cells: texts(self.cells@), note: self.note@ }
    }
}

/// One step of setup.
#[derive(Clone, Debug)]
pub enum SetupStep {
    /// Show a form.
    Form { title: String, body: String, fields: Vec<Field> },
    /// Show a table to pick one row of, or to type an answer instead.
    Pick {
        title: String,
        body: String,
        columns: Vec<String>,
        rows: Vec<PickRow>,
        field: String,
        manual: Option<Field>,
    },
    /// Send a request, and come back with the answer.
    Fetch { request: HttpRequest, note: String },
    /// Tell somebody to do something.
    Instruct { title: String, body: String, continue_label: String },
    /// Wait, and come back.
    Wait { title: String, body: String, retry_ms: u64 },
    /// Show candidates to choose from.
    Choose { title: String, body: String, options: Vec<Candidate>, multiple: bool },
    /// Setup has failed.
    Failed { reason: String },
    /// Setup is done.
    Done { devices: Vec<Candidate>, rules: Vec<ImportedRule>, scenes: Vec<ImportedScene> },
}

#[verifier::ext_equal]
pub ghost enum StepView {
    Form { title: Seq<char>, body: Seq<char>, fields: Seq<FieldView> },
    Pick {
        title: Seq<char>,
        body: Seq<char>,
        columns: Seq<Seq<char>>,
        rows: Seq<PickRowView>,
        field: Seq<char>,
        manual: Option<FieldView>,
    },
    Fetch { request: HttpRequestView, note: Seq<char> },
    Instruct { title: Seq<char>, body: Seq<char>, continue_label: Seq<char> },
    Wait { title: Seq<char>, body: Seq<char>, retry_ms: u64 },
    Choose { title: Seq<char>, body: Seq<char>, options: Seq<CandidateView>, multiple: bool },
    Failed { reason: Seq<char> },
    Done { devices: Seq<CandidateView>, rules: Seq<Json>, scenes: Seq<ImportedSceneView> },
}

impl View for SetupStep {
    type V = StepView;

    open spec fn view(&self) -> StepView {
        match self {
            SetupStep::Form { title, body, fields } => StepView::Form {
                title: title@,
                body: body@,
                fields: views(fields@),
            },
            SetupStep::Pick { title, body, columns, rows, field, manual } => StepView::Pick {
                title: title@,
                body: body@,
                columns: texts(columns@),
                rows: views(rows@),
                field: field@,
                manual: seen(*manual),
            },
            SetupStep::Fetch { request, note } => StepView::Fetch {
                request: request@,
                note: note@,
            },
            SetupStep::Instruct { title, body, continue_label } => StepView::Instruct {
                title: title@,
                body: body@,
                continue_label: continue_label@,
            },
            SetupStep::Wait { title, body, retry_ms } => StepView::Wait {
                title: title@,
                body: body@,
                retry_ms: *retry_ms,
            },
            SetupStep::Choose { title, body, options, multiple } => StepView::Choose {
                title: title@,
                body: body@,
                options: views(options@),
                multiple: *multiple,
            },
            SetupStep::Failed { reason } => StepView::Failed { reason: reason@ },
            SetupStep::Done { devices, rules, scenes } => StepView::Done {
                devices: views(devices@),
                rules: views(rules@),
                scenes: views(scenes@),
            },
        }
    }
}

/// The phase in which the question whether to bring the scenes over is open.
pub const SCENE_CHOICE: &'static str = "scene_choice";

/// What setup is to be called with next.
#[derive(Clone, Debug)]
pub enum NextState {
    /// A document, null once setup is over.
    Document(JsonValue),
    /// The question whether to bring the scenes over is open: setup goes on in the phase
    /// [`SCENE_CHOICE`].
    SceneChoice {
        devices: Vec<Candidate>,
        rules: Vec<ImportedRule>,
        scenes: Vec<ImportedScene>,
    },
}

#[verifier::ext_equal]
pub ghost enum NextView {
    Document(Json),
    SceneChoice {
        devices: Seq<CandidateView>,
        rules: Seq<Json>,
        scenes: Seq<ImportedSceneView>,
    },
}

impl View for NextState {
    type V = NextView;

    open spec fn view(&self) -> NextView {
        match self {
            NextState::Document(state) => NextView::Document(state@),
            NextState::SceneChoice { devices, rules, scenes } => NextView::SceneChoice {
                devices: views(devices@),
                rules: views(rules@),
                scenes: views(scenes@),
            },
        }
    }
}

} // verus!
