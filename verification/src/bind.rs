//! What a device does when it is brought up.
use vstd::prelude::*;
use vstd::string::*;
use vstd::utf8::encode_utf8;

use crate::host::{
    notify1, CallView, HostCall, HttpRequest, HttpRequestView, Instance, InstanceView, LocalId,
};
use crate::json::{Json, JsonValue};
use crate::role::{names, role_of, Role};
use crate::views::{group_views, views};
use crate::HueBulb;

verus! {

broadcast use group_views;

/// The collections that the bridge reads once at start.
///
/// `button` is deliberately not among them: a button resource carries its last event, and
/// reading it at start would report an old press as if it had just happened. Lights, motion,
/// temperature and battery are states and can be read; a press can only be listened for. Zones,
/// rooms and scenes are inventory, read so that an exact match can be used without changing it.
pub open spec fn collections() -> Seq<Seq<char>> {
    seq![
        "light"@,
        "motion"@,
        "temperature"@,
        "light_level"@,
        "device_power"@,
        "zone"@,
        "room"@,
        "scene"@,
    ]
}

/// What brings bindings online.
pub open spec fn onlines(bindings: Seq<LocalId>) -> Seq<CallView> {
    Seq::new(
        bindings.len(),
        |i: int| notify1(bindings[i], "online_changed"@, "online"@, Json::Bool(true)),
    )
}

/// The request that opens the event stream.
pub open spec fn stream_text(bridge: Seq<char>, key: Seq<char>) -> Seq<char> {
    "GET /eventstream/clip/v2 HTTP/1.1\r\nHost: "@ + bridge
        + "\r\nAccept: text/event-stream\r\nCache-Control: no-cache\r\nhue-application-key: "@ + key
        + "\r\n\r\n"@
}

/// The reads of the bridge's collections.
pub open spec fn reads(key: Seq<char>) -> Seq<CallView> {
    Seq::new(
        collections().len(),
        |i: int|
            CallView::Http(
                HttpRequestView::with_key(
                    "GET"@,
                    "/clip/v2/resource/"@ + collections()[i],
                    key,
                    None,
                ),
            ),
    )
}

/// What a device does when it is brought up: all of its bindings come online, and the bridge, the
/// one device with no resource id of its own, opens the event stream, asks for its own identity
/// and reads each collection once. Everything behind the bridge asks for nothing.
pub open spec fn bind_calls(inst: InstanceView) -> Seq<CallView> {
    let online = onlines(role_of(inst).spec_bindings(inst));
    match (inst.text("Bridge address"@), inst.text("Application key"@)) {
        (Some(bridge), Some(key)) if role_of(inst) == Role::Bridge => online + seq![
            CallView::Tx { control: 0, data: encode_utf8(stream_text(bridge, key)) },
            CallView::Http(HttpRequestView::bare("GET"@, "/api/config"@)),
        ] + reads(key),
        _ => online,
    }
}

fn start_collections() -> (r: Vec<&'static str>)
    ensures
        names(r@) == collections(),
{
    let mut out: Vec<&'static str> = Vec::new();
    out.push("light");
    out.push("motion");
    out.push("temperature");
    out.push("light_level");
    out.push("device_power");
    out.push("zone");
    out.push("room");
    out.push("scene");
    assert(names(out@) =~= collections());
    out
}

fn bring_online(bindings: &Vec<LocalId>) -> (r: Vec<HostCall>)
    ensures
        views(r@) == onlines(bindings@),
{
    let mut out: Vec<HostCall> = Vec::new();
    let mut i: usize = 0;
    while i < bindings.len()
        invariant
            i <= bindings.len(),
            out.len() == i,
            forall|k: int| 0 <= k < i ==> (#[trigger] out@[k])@ == onlines(bindings@)[k],
        decreases bindings.len() - i,
    {
        out.push(
            HostCall::notify1(bindings[i], "online_changed", "online", JsonValue::Bool(true)),
        );
        i += 1;
    }
    assert(views(out@) =~= onlines(bindings@));
    out
}

fn read_all(key: &str) -> (r: Vec<HostCall>)
    ensures
        views(r@) == reads(key@),
{
    let kinds = start_collections();
    let mut out: Vec<HostCall> = Vec::new();
    let mut i: usize = 0;
    while i < kinds.len()
        invariant
            i <= kinds.len(),
            names(kinds@) == collections(),
            out.len() == i,
            forall|k: int| 0 <= k < i ==> (#[trigger] out@[k])@ == reads(key@)[k],
        decreases kinds.len() - i,
    {
        assert(kinds@[i as int]@ == collections()[i as int]);
        let path = "/clip/v2/resource/".to_owned().concat(kinds[i]);
        out.push(HostCall::Http(HttpRequest::with_key("GET", path.as_str(), key, None)));
        i += 1;
    }
    assert(views(out@) =~= reads(key@));
    out
}

impl HueBulb {
    /// Brings a device up. It remembers nothing of it.
    pub fn on_bind(&self, inst: &mut Instance) -> (r: Vec<HostCall>)
        ensures
            final(inst)@ == old(inst)@,
            views(r@) == bind_calls(old(inst)@),
    {
        let role = Role::of(inst);
        let bindings = role.bindings(inst);
        let mut out = bring_online(&bindings);
        if role == Role::Bridge {
            if let (Some(bridge), Some(key)) = (
                inst.text("Bridge address"),
                inst.text("Application key"),
            ) {
                let request = "GET /eventstream/clip/v2 HTTP/1.1\r\nHost: ".to_owned().concat(
                    bridge,
                ).concat(
                    "\r\nAccept: text/event-stream\r\nCache-Control: no-cache\r\nhue-application-key: ",
                ).concat(key).concat("\r\n\r\n");
                out.push(HostCall::Tx { control: 0, data: request.as_str().as_bytes_vec() });
                out.push(HostCall::Http(HttpRequest::new("GET", "/api/config")));
                let mut more = read_all(key);
                out.append(&mut more);
                assert(views(out@) =~= bind_calls(old(inst)@));
            }
        }
        out
    }
}

} // verus!
