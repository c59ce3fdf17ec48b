//! What passes between the driver and its host.
use vstd::prelude::*;

use crate::codec::{json_string, written_json};
use crate::json::{at, str_in, str_of, Json, JsonValue, Number, Record};
use crate::text::text_of;
use crate::views::seen;

verus! {

/// Names a device of the project.
pub type DeviceId = u32;

/// Names a binding of a device.
pub type LocalId = u32;

/// One device: what the installer set on it, and what the driver remembers of it.
#[derive(Clone, Debug)]
pub struct Instance {
    pub device: DeviceId,
    pub properties: Record,
    pub scratch: Record,
}

#[verifier::ext_equal]
pub ghost struct InstanceView {
    pub device: DeviceId,
    pub properties: Map<Seq<char>, Json>,
    pub scratch: Map<Seq<char>, Json>,
}

impl View for Instance {
    type V = InstanceView;

    open spec fn view(&self) -> InstanceView {
        InstanceView {
            device: self.device,
            properties: self.properties@,
            scratch: self.scratch@,
        }
    }
}

impl InstanceView {
    /// The text of a property.
    pub open spec fn text(self, property: Seq<char>) -> Option<Seq<char>> {
        str_in(at(self.properties, property))
    }

    /// Whether a property holds a text that is not empty.
    pub open spec fn has(self, property: Seq<char>) -> bool {
        self.text(property) matches Some(s) && s.len() > 0
    }

    /// The same device with other memories.
    pub open spec fn with_scratch(self, scratch: Map<Seq<char>, Json>) -> InstanceView {
        InstanceView { scratch, ..self }
    }
}

impl Instance {
    /// A device with nothing set and nothing remembered.
    pub fn new(device: DeviceId) -> (r: Self)
        ensures
            r@ == (InstanceView { device, properties: Map::empty(), scratch: Map::empty() }),
    {
        Instance { device, properties: Record::new(), scratch: Record::new() }
    }

    /// The text of a property.
    pub fn text(&self, property: &str) -> (r: Option<&str>)
        ensures
            text_of(r) == self@.text(property@),
    {
        str_of(self.properties.get(property))
    }

    /// Whether a property holds a text that is not empty.
    pub fn has(&self, property: &str) -> (r: bool)
        ensures
            r == self@.has(property@),
    {
        match self.text(property) {
            Some(s) => !s.is_empty(),
            None => false,
        }
    }
}

impl Default for Instance {
    fn default() -> (r: Self)
        ensures
            r@ == (InstanceView { device: 0, properties: Map::empty(), scratch: Map::empty() }),
    {
        Instance::new(0)
    }
}

/// A request to the bridge. The body is JSON text.
#[derive(Clone, Debug)]
pub struct HttpRequest {
    pub method: String,
    pub url: String,
    pub headers: Vec<(String, String)>,
    pub body: Option<String>,
}

#[verifier::ext_equal]
pub ghost struct HttpRequestView {
    pub method: Seq<char>,
    pub url: Seq<char>,
    pub headers: Seq<(Seq<char>, Seq<char>)>,
    pub body: Option<Seq<char>>,
}

impl View for HttpRequest {
    type V = HttpRequestView;

    open spec fn view(&self) -> HttpRequestView {
        HttpRequestView {
            method: self.method@,
            url: self.url@,
            headers: Seq::new(
                self.headers@.len(),
                |i: int| (self.headers@[i].0@, self.headers@[i].1@),
            ),
            body: seen(self.body),
        }
    }
}

/// The text that an optional document is sent as.
pub open spec fn sent_as(body: Option<Json>) -> Option<Seq<char>> {
    match body {
        Some(document) => Some(written_json(document)),
        None => None,
    }
}

impl HttpRequestView {
    /// A request that carries the application key and, where there is one, a document as text.
    pub open spec fn with_key(
        method: Seq<char>,
        url: Seq<char>,
        key: Seq<char>,
        body: Option<Json>,
    ) -> HttpRequestView {
        HttpRequestView { method, url, headers: seq![("hue-application-key"@, key)], body: sent_as(body) }
    }

    /// A request with nothing but its address.
    pub open spec fn bare(method: Seq<char>, url: Seq<char>) -> HttpRequestView {
        HttpRequestView { method, url, headers: Seq::empty(), body: None }
    }
}

impl HttpRequest {
    /// A request with nothing but its address.
    pub fn new(method: &str, url: &str) -> (r: Self)
        ensures
            r@ == HttpRequestView::bare(method@, url@),
    {
        let r = HttpRequest {
            method: method.to_owned(),
            url: url.to_owned(),
            headers: Vec::new(),
            body: None,
        };
        assert(r@.headers =~= Seq::empty());
        r
    }

    /// A request that carries the application key.
    pub fn with_key(method: &str, url: &str, key: &str, body: Option<JsonValue>) -> (r: Self)
        ensures
            r@ == HttpRequestView::with_key(method@, url@, key@, seen(body)),
    {
        let mut headers: Vec<(String, String)> = Vec::new();
        headers.push(("hue-application-key".to_owned(), key.to_owned()));
        let body = match body {
            Some(document) => Some(json_string(&document)),
            None => None,
        };
        let r = HttpRequest { method: method.to_owned(), url: url.to_owned(), headers, body };
        assert(r@.headers =~= seq![("hue-application-key"@, key@)]);
        r
    }
}

/// What the driver asks of its host.
#[derive(Clone, Debug)]
pub enum HostCall {
    /// Say that something changed on a binding.
    Notify { proxy: LocalId, name: String, args: Record },
    /// Send a request to the bridge.
    Http(HttpRequest),
    /// Send bytes on a connection.
    Tx { control: LocalId, data: Vec<u8> },
    /// This device no longer exists.
    Gone { reason: String },
    /// Say that something is wrong.
    Warn { message: String },
}

#[verifier::ext_equal]
pub ghost enum CallView {
    Notify { proxy: LocalId, name: Seq<char>, args: Map<Seq<char>, Json> },
    Http(HttpRequestView),
    Tx { control: LocalId, data: Seq<u8> },
    Gone { reason: Seq<char> },
    Warn { message: Seq<char> },
}

impl View for HostCall {
    type V = CallView;

    open spec fn view(&self) -> CallView {
        match self {
            HostCall::Notify { proxy, name, args } => CallView::Notify {
                proxy: *proxy,
                name: name@,
                args: args@,
            },
            HostCall::Http(request) => CallView::Http(request@),
            HostCall::Tx { control, data } => CallView::Tx { control: *control, data: data@ },
            HostCall::Gone { reason } => CallView::Gone { reason: reason@ },
            HostCall::Warn { message } => CallView::Warn { message: message@ },
        }
    }
}

/// A notification that names one value.
pub open spec fn notify1(
    proxy: LocalId,
    name: Seq<char>,
    key: Seq<char>,
    value: Json,
) -> CallView {
    CallView::Notify { proxy, name, args: Map::empty().insert(key, value) }
}

impl HostCall {
    /// Say that something changed on a binding.
    pub fn notify(proxy: LocalId, name: &str, args: Record) -> (r: Self)
        ensures
            r@ == (CallView::Notify { proxy, name: name@, args: args@ }),
    {
        HostCall::Notify { proxy, name: name.to_owned(), args }
    }

    /// A notification that names one value.
    pub fn notify1(proxy: LocalId, name: &str, key: &str, value: JsonValue) -> (r: Self)
        ensures
            r@ == notify1(proxy, name@, key@, value@),
    {
        HostCall::notify(proxy, name, Record::new().with(key, value))
    }

    /// This device no longer exists.
    pub fn gone(reason: &str) -> (r: Self)
        ensures
            r@ == (CallView::Gone { reason: reason@ }),
    {
        HostCall::Gone { reason: reason.to_owned() }
    }

    /// Say that something is wrong.
    pub fn warn(message: &str) -> (r: Self)
        ensures
            r@ == (CallView::Warn { message: message@ }),
    {
        HostCall::Warn { message: message.to_owned() }
    }
}

/// What handling an event comes to: a call of the host, or work for another part of the driver.
#[derive(Clone, Debug)]
pub enum Effect {
    /// A call of the host.
    Call(HostCall),
    /// Remember the effects that this light advertises, for scenes.
    CacheEffects(JsonValue),
    /// Report this resource as a sensor.
    Sensor(JsonValue),
    /// Report this resource as a button or dial.
    Control(JsonValue),
    /// Report this point of the CIE diagram as a hue and a saturation.
    Color { x: Number, y: Number },
    /// The answer to a zone write that a scene waits for.
    SceneZone,
    /// The answer to a read, which may be of rooms or scenes.
    SceneCollection,
}

#[verifier::ext_equal]
pub ghost enum EffectView {
    Call(CallView),
    CacheEffects(Json),
    Sensor(Json),
    Control(Json),
    Color { x: Number, y: Number },
    SceneZone,
    SceneCollection,
}

impl View for Effect {
    type V = EffectView;

    open spec fn view(&self) -> EffectView {
        match self {
            Effect::Call(c) => EffectView::Call(c@),
            Effect::CacheEffects(v) => EffectView::CacheEffects(v@),
            Effect::Sensor(v) => EffectView::Sensor(v@),
            Effect::Control(v) => EffectView::Control(v@),
            Effect::Color { x, y } => EffectView::Color { x: *x, y: *y },
            Effect::SceneZone => EffectView::SceneZone,
            Effect::SceneCollection => EffectView::SceneCollection,
        }
    }
}

} // verus!
