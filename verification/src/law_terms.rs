//! The words in which laws speak of documents, memories and calls.
use vstd::prelude::*;

use crate::codec::written_json;
use crate::host::{CallView, InstanceView, LocalId};
use crate::json::{Json, Number};

verus! {

/// What a map holds under a name.
pub open spec fn held(m: Map<Seq<char>, Json>, name: Seq<char>) -> Option<Json> {
    if m.dom().contains(name) {
        Some(m[name])
    } else {
        None
    }
}

/// The member of a document.
pub open spec fn member(doc: Json, name: Seq<char>) -> Option<Json> {
    match doc {
        Json::Object(m) => held(m, name),
        _ => None,
    }
}

/// The member of an optional document.
pub open spec fn inner(doc: Option<Json>, name: Seq<char>) -> Option<Json> {
    match doc {
        Some(d) => member(d, name),
        None => None,
    }
}

/// The names of a document's members.
pub open spec fn names_in(doc: Json) -> Set<Seq<char>> {
    match doc {
        Json::Object(m) => m.dom(),
        _ => Set::empty(),
    }
}

/// The items of an optional document that is a list.
pub open spec fn list_in(doc: Option<Json>) -> Seq<Json> {
    match doc {
        Some(Json::Array(items)) => items,
        _ => Seq::empty(),
    }
}

/// The integer that a value is, where it is one that is not negative.
pub open spec fn count_in(o: Option<Json>) -> Option<u64> {
    match o {
        Some(Json::Number(Number::PosInt(n))) => Some(n),
        _ => None,
    }
}

/// The text that a value is, where it is one.
pub open spec fn words_in(o: Option<Json>) -> Option<Seq<char>> {
    match o {
        Some(Json::Str(s)) => Some(s),
        _ => None,
    }
}

/// The truth value that a value is, where it is one.
pub open spec fn truth_in(o: Option<Json>) -> Option<bool> {
    match o {
        Some(Json::Bool(b)) => Some(b),
        _ => None,
    }
}

/// An integer as a value.
pub open spec fn counted(n: u64) -> Option<Json> {
    Some(Json::Number(Number::PosInt(n)))
}

/// Whether a call is a request that carries the application key and a document.
pub open spec fn asks(
    call: CallView,
    method: Seq<char>,
    url: Seq<char>,
    key: Seq<char>,
    doc: Json,
) -> bool {
    &&& call matches CallView::Http(request)
    &&& request.method == method
    &&& request.url == url
    &&& request.headers == seq![("hue-application-key"@, key)]
    &&& request.body == Some(written_json(doc))
}

/// Whether a call is a read that carries the application key and nothing else.
pub open spec fn reads_from(call: CallView, url: Seq<char>, key: Seq<char>) -> bool {
    &&& call matches CallView::Http(request)
    &&& request.method == "GET"@
    &&& request.url == url
    &&& request.headers == seq![("hue-application-key"@, key)]
    &&& request.body is None
}

/// Whether a call tells the host one value.
pub open spec fn tells(
    call: CallView,
    binding: LocalId,
    event: Seq<char>,
    name: Seq<char>,
    value: Json,
) -> bool {
    &&& call matches CallView::Notify { proxy, name: said, args }
    &&& proxy == binding
    &&& said == event
    &&& args.dom() == set![name]
    &&& args[name] == value
}

/// The key that is set on a device, or nothing.
pub open spec fn key_set(properties: Map<Seq<char>, Json>) -> Seq<char> {
    match held(properties, "Application key"@) {
        Some(Json::Str(key)) => key,
        _ => ""@,
    }
}

/// Whether a property is set to a text that is not empty.
pub open spec fn is_set(
    properties: Map<Seq<char>, Json>,
    name: Seq<char>,
    value: Seq<char>,
) -> bool {
    held(properties, name) == Some(Json::Str(value)) && value.len() > 0
}

/// Whether the address of the bridge is set.
pub open spec fn is_reachable(inst: InstanceView) -> bool {
    words_in(held(inst.properties, "Bridge address"@)) matches Some(address) && address.len() > 0
}

} // verus!
