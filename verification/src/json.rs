//! JSON values as the driver reads and writes them.
use vstd::prelude::*;

use crate::order::texts;
use crate::text::{same, text_of};

verus! {

/// A JSON number. A number that is no integer is kept as the bits of its binary64 form.
#[derive(Clone, Copy, Debug, PartialEq, Eq, Structural)]
pub enum Number {
    /// An integer that is not negative.
    PosInt(u64),
    /// A negative integer.
    NegInt(i64),
    /// Anything else.
    Float(u64),
}

/// The mathematical value of a JSON document.
#[verifier::ext_equal]
pub enum Json {
    Null,
    Bool(bool),
    Number(Number),
    Str(Seq<char>),
    Array(Seq<Json>),
    Object(Map<Seq<char>, Json>),
}

/// A JSON value.
#[derive(Debug)]
pub enum JsonValue {
    Null,
    Bool(bool),
    Number(Number),
    String(String),
    Array(Vec<JsonValue>),
    Object(Record),
}

/// Named JSON values.
#[derive(Debug)]
pub struct Record {
    pub entries: Vec<(String, JsonValue)>,
}

/// The JSON value that an executable value stands for.
pub open spec fn json_of(v: JsonValue) -> Json
    decreases v,
{
    match v {
        JsonValue::Null => Json::Null,
        JsonValue::Bool(b) => Json::Bool(b),
        JsonValue::Number(n) => Json::Number(n),
        JsonValue::String(s) => Json::Str(s@),
        JsonValue::Array(items) => Json::Array(
            Seq::new(
                items@.len(),
                |i: int|
                    if 0 <= i < items@.len() {
                        json_of(items@[i])
                    } else {
                        Json::Null
                    },
            ),
        ),
        JsonValue::Object(r) => Json::Object(map_of(r.entries@)),
    }
}

/// The values that a list of entries holds. A later entry hides an earlier one of its name.
pub open spec fn map_of(entries: Seq<(String, JsonValue)>) -> Map<Seq<char>, Json>
    decreases entries,
{
    if entries.len() == 0 {
        Map::empty()
    } else {
        map_of(entries.drop_last()).insert(entries.last().0@, json_of(entries.last().1))
    }
}

impl View for JsonValue {
    type V = Json;

    open spec fn view(&self) -> Json {
        json_of(*self)
    }
}

impl View for Record {
    type V = Map<Seq<char>, Json>;

    open spec fn view(&self) -> Map<Seq<char>, Json> {
        map_of(self.entries@)
    }
}

/// The value that a map holds under a key.
pub open spec fn at<V>(m: Map<Seq<char>, V>, key: Seq<char>) -> Option<V> {
    if m.contains_key(key) {
        Some(m[key])
    } else {
        None
    }
}

/// The JSON value behind an optional reference.
pub open spec fn json_in(o: Option<&JsonValue>) -> Option<Json> {
    match o {
        Some(v) => Some(v@),
        None => None,
    }
}

/// The JSON values of a sequence.
pub open spec fn jsons(s: Seq<JsonValue>) -> Seq<Json> {
    Seq::new(s.len(), |i: int| json_of(s[i]))
}

impl Json {
    /// The member of an object. Anything else has no members.
    pub open spec fn get(self, key: Seq<char>) -> Option<Json> {
        match self {
            Json::Object(m) => at(m, key),
            _ => None,
        }
    }

    pub open spec fn as_str(self) -> Option<Seq<char>> {
        match self {
            Json::Str(s) => Some(s),
            _ => None,
        }
    }

    pub open spec fn as_bool(self) -> Option<bool> {
        match self {
            Json::Bool(b) => Some(b),
            _ => None,
        }
    }

    /// The number, where it is an integer that is not negative.
    pub open spec fn as_u64(self) -> Option<u64> {
        match self {
            Json::Number(Number::PosInt(n)) => Some(n),
            _ => None,
        }
    }

    pub open spec fn as_number(self) -> Option<Number> {
        match self {
            Json::Number(n) => Some(n),
            _ => None,
        }
    }

    pub open spec fn as_array(self) -> Option<Seq<Json>> {
        match self {
            Json::Array(items) => Some(items),
            _ => None,
        }
    }

    pub open spec fn as_object(self) -> Option<Map<Seq<char>, Json>> {
        match self {
            Json::Object(m) => Some(m),
            _ => None,
        }
    }

    /// The text of a member.
    pub open spec fn str_at(self, key: Seq<char>) -> Option<Seq<char>> {
        str_in(self.get(key))
    }

    /// Whether a member is the given text.
    pub open spec fn is_at(self, key: Seq<char>, text: Seq<char>) -> bool {
        self.str_at(key) == Some(text)
    }

    /// The items of a member that is an array; none where it is anything else.
    pub open spec fn items_at(self, key: Seq<char>) -> Seq<Json> {
        items_in(self.get(key))
    }
}

/// The text behind an optional value.
pub open spec fn str_in(o: Option<Json>) -> Option<Seq<char>> {
    match o {
        Some(j) => j.as_str(),
        None => None,
    }
}

/// The truth value behind an optional value.
pub open spec fn bool_in(o: Option<Json>) -> Option<bool> {
    match o {
        Some(j) => j.as_bool(),
        None => None,
    }
}

/// The integer behind an optional value, where it is not negative.
pub open spec fn u64_in(o: Option<Json>) -> Option<u64> {
    match o {
        Some(j) => j.as_u64(),
        None => None,
    }
}

/// The number behind an optional value.
pub open spec fn number_in(o: Option<Json>) -> Option<Number> {
    match o {
        Some(j) => j.as_number(),
        None => None,
    }
}

/// The items of an optional value that is an array; none where it is anything else.
pub open spec fn items_in(o: Option<Json>) -> Seq<Json> {
    match o {
        Some(Json::Array(items)) => items,
        _ => Seq::empty(),
    }
}

/// The member of an optional value.
pub open spec fn get_in(o: Option<Json>, key: Seq<char>) -> Option<Json> {
    match o {
        Some(j) => j.get(key),
        None => None,
    }
}

/// The value itself, or null where there is none.
pub open spec fn or_null(o: Option<Json>) -> Json {
    match o {
        Some(j) => j,
        None => Json::Null,
    }
}

/// A value stands for itself: a plain one for the same, a list for what its items stand for, in
/// order, and a record for what it holds under each name.
pub proof fn law_a_value_stands_for_itself(v: JsonValue)
    ensures
        v is Null <==> v@ is Null,
        v matches JsonValue::Bool(b) ==> v@ == Json::Bool(b),
        v matches JsonValue::Number(n) ==> v@ == Json::Number(n),
        v matches JsonValue::String(s) ==> v@ == Json::Str(s@),
        v matches JsonValue::Array(items) ==> {
            &&& v@ is Array
            &&& v@->Array_0.len() == items@.len()
            &&& forall|i: int| 0 <= i < items@.len() ==> #[trigger] v@->Array_0[i] == items@[i]@
        },
        v matches JsonValue::Object(record) ==> v@ == Json::Object(record@),
{
}

/// What is put behind the entries of a record takes the place of what it held under that name.
pub proof fn law_a_later_entry_hides_an_earlier(
    entries: Seq<(String, JsonValue)>,
    name: String,
    value: JsonValue,
)
    ensures
        map_of(Seq::empty()) == Map::<Seq<char>, Json>::empty(),
        map_of(entries.push((name, value))) == map_of(entries).insert(name@, value@),
{
    assert(entries.push((name, value)).drop_last() =~= entries);
}

proof fn lemma_absent_key(s: Seq<(String, JsonValue)>, key: Seq<char>)
    requires
        forall|j: int| 0 <= j < s.len() ==> s[j].0@ != key,
    ensures
        !map_of(s).contains_key(key),
    decreases s.len(),
{
    if s.len() > 0 {
        lemma_absent_key(s.drop_last(), key);
    }
}

proof fn lemma_remove_entry(s: Seq<(String, JsonValue)>, i: int)
    requires
        0 <= i < s.len(),
    ensures
        map_of(s.remove(i)).remove(s[i].0@) == map_of(s).remove(s[i].0@),
    decreases s.len(),
{
    let key = s[i].0@;
    if i == s.len() - 1 {
        assert(s.remove(i) =~= s.drop_last());
        assert(map_of(s.drop_last()).remove(key) =~= map_of(s).remove(key));
    } else {
        let rest = s.drop_last();
        lemma_remove_entry(rest, i);
        assert(s.remove(i).drop_last() =~= rest.remove(i));
        assert(s.remove(i).last() == s.last());
        let a = map_of(rest.remove(i));
        let b = map_of(rest);
        let k = s.last().0@;
        let v = json_of(s.last().1);
        assert(map_of(s.remove(i)) == a.insert(k, v));
        assert(a.remove(key) == b.remove(key));
        let x = a.insert(k, v).remove(key);
        let y = b.insert(k, v).remove(key);
        assert forall|q: Seq<char>| x.contains_key(q) == y.contains_key(q) by {
            assert(a.remove(key).contains_key(q) == b.remove(key).contains_key(q));
        }
        assert forall|q: Seq<char>| x.contains_key(q) implies x[q] == y[q] by {
            assert(q != k ==> a.remove(key)[q] == b.remove(key)[q]);
        }
        assert(x =~= y);
    }
}

impl Record {
    /// A record that holds nothing.
    pub fn new() -> (r: Self)
        ensures
            r@ == Map::<Seq<char>, Json>::empty(),
    {
        Record { entries: Vec::new() }
    }

    /// The value under a key.
    pub fn get(&self, key: &str) -> (r: Option<&JsonValue>)
        ensures
            json_in(r) == at(self@, key@),
    {
        let mut i: usize = self.entries.len();
        assert(self.entries@.take(i as int) =~= self.entries@);
        while i > 0
            invariant
                i <= self.entries.len(),
                at(map_of(self.entries@), key@) == at(map_of(self.entries@.take(i as int)), key@),
            decreases i,
        {
            i -= 1;
            assert(self.entries@.take(i + 1).drop_last() =~= self.entries@.take(i as int));
            let entry = &self.entries[i];
            if same(entry.0.as_str(), key) {
                return Some(&entry.1);
            }
        }
        None
    }

    /// Whether there is a value under a key.
    pub fn contains_key(&self, key: &str) -> (r: bool)
        ensures
            r == self@.contains_key(key@),
    {
        self.get(key).is_some()
    }

    /// Drops the value under a key, if there is one.
    pub fn remove(&mut self, key: &str)
        ensures
            final(self)@ == old(self)@.remove(key@),
    {
        let ghost before = self@;
        let mut i: usize = 0;
        while i < self.entries.len()
            invariant
                i <= self.entries.len(),
                self@.remove(key@) == before.remove(key@),
                forall|j: int| 0 <= j < i ==> self.entries@[j].0@ != key@,
            decreases self.entries.len() - i,
        {
            if same(self.entries[i].0.as_str(), key) {
                proof {
                    lemma_remove_entry(self.entries@, i as int);
                }
                self.entries.remove(i);
            } else {
                i += 1;
            }
        }
        proof {
            lemma_absent_key(self.entries@, key@);
            assert(self@.remove(key@) =~= self@);
        }
    }

    /// Puts a value under a key, in place of the one that stood there.
    pub fn insert(&mut self, key: &str, value: JsonValue)
        ensures
            final(self)@ == old(self)@.insert(key@, value@),
    {
        let ghost before = self@;
        self.remove(key);
        let ghost s = self.entries@;
        self.entries.push((key.to_owned(), value));
        proof {
            assert(self.entries@.drop_last() =~= s);
            assert(before.remove(key@).insert(key@, value@) =~= before.insert(key@, value@));
        }
    }

    /// The record with one more value.
    pub fn with(self, key: &str, value: JsonValue) -> (r: Self)
        ensures
            r@ == self@.insert(key@, value@),
    {
        let mut r = self;
        r.insert(key, value);
        r
    }
}

impl JsonValue {
    /// The member of an object. Anything else has no members.
    pub fn get(&self, key: &str) -> (r: Option<&JsonValue>)
        ensures
            json_in(r) == self@.get(key@),
    {
        match self {
            JsonValue::Object(r) => r.get(key),
            _ => None,
        }
    }

    /// The text, where it is one.
    pub fn as_str(&self) -> (r: Option<&str>)
        ensures
            text_of(r) == self@.as_str(),
    {
        match self {
            JsonValue::String(s) => Some(s.as_str()),
            _ => None,
        }
    }

    /// The truth value, where it is one.
    pub fn as_bool(&self) -> (r: Option<bool>)
        ensures
            r == self@.as_bool(),
    {
        match self {
            JsonValue::Bool(b) => Some(*b),
            _ => None,
        }
    }

    /// The number, where it is an integer that is not negative.
    pub fn as_u64(&self) -> (r: Option<u64>)
        ensures
            r == self@.as_u64(),
    {
        match self {
            JsonValue::Number(Number::PosInt(n)) => Some(*n),
            _ => None,
        }
    }

    /// The number, where it is one.
    pub fn as_number(&self) -> (r: Option<Number>)
        ensures
            r == self@.as_number(),
    {
        match self {
            JsonValue::Number(n) => Some(*n),
            _ => None,
        }
    }

    /// The items, where it is an array.
    pub fn as_array(&self) -> (r: Option<&Vec<JsonValue>>)
        ensures
            listed(r) == items_in(Some(self@)),
            r is Some == self@ is Array,
    {
        match self {
            JsonValue::Array(items) => {
                assert(jsons(items@) =~= self@->Array_0);
                Some(items)
            },
            _ => None,
        }
    }

    /// The members, where it is an object.
    pub fn as_object(&self) -> (r: Option<&Record>)
        ensures
            r is Some == self@ is Object,
            r is Some ==> r->0@ == self@->Object_0,
    {
        match self {
            JsonValue::Object(r) => Some(r),
            _ => None,
        }
    }

    /// The text of a member.
    pub fn str_at(&self, key: &str) -> (r: Option<&str>)
        ensures
            text_of(r) == self@.str_at(key@),
    {
        str_of(self.get(key))
    }

    /// Whether a member is the given text.
    pub fn is_at(&self, key: &str, text: &str) -> (r: bool)
        ensures
            r == self@.is_at(key@, text@),
    {
        match self.str_at(key) {
            Some(s) => same(s, text),
            None => false,
        }
    }

    /// The items of a member that is an array.
    pub fn items_at(&self, key: &str) -> (r: Option<&Vec<JsonValue>>)
        ensures
            listed(r) == self@.items_at(key@),
            r is Some == (self@.get(key@) matches Some(Json::Array(_))),
    {
        match self.get(key) {
            Some(v) => v.as_array(),
            None => None,
        }
    }
}

/// The items behind an optional list.
pub open spec fn listed(o: Option<&Vec<JsonValue>>) -> Seq<Json> {
    match o {
        Some(v) => jsons(v@),
        None => Seq::empty(),
    }
}

/// The text behind an optional value.
pub fn str_of(o: Option<&JsonValue>) -> (r: Option<&str>)
    ensures
        text_of(r) == str_in(json_in(o)),
{
    match o {
        Some(v) => v.as_str(),
        None => None,
    }
}

/// The truth value behind an optional value.
pub fn bool_of(o: Option<&JsonValue>) -> (r: Option<bool>)
    ensures
        r == bool_in(json_in(o)),
{
    match o {
        Some(v) => v.as_bool(),
        None => None,
    }
}

/// The integer behind an optional value.
pub fn u64_of(o: Option<&JsonValue>) -> (r: Option<u64>)
    ensures
        r == u64_in(json_in(o)),
{
    match o {
        Some(v) => v.as_u64(),
        None => None,
    }
}

/// The number behind an optional value.
pub fn number_of(o: Option<&JsonValue>) -> (r: Option<Number>)
    ensures
        r == number_in(json_in(o)),
{
    match o {
        Some(v) => v.as_number(),
        None => None,
    }
}

/// The member of an optional value.
pub fn get_of<'a>(o: Option<&'a JsonValue>, key: &str) -> (r: Option<&'a JsonValue>)
    ensures
        json_in(r) == get_in(json_in(o), key@),
{
    match o {
        Some(v) => v.get(key),
        None => None,
    }
}

/// A copy of an optional value, or null where there is none.
pub fn or_null_of(o: Option<&JsonValue>) -> (r: JsonValue)
    ensures
        r@ == or_null(json_in(o)),
{
    match o {
        Some(v) => v.clone(),
        None => JsonValue::Null,
    }
}

/// An integer argument, or the given one where it is not said.
pub open spec fn u64_or(o: Option<Json>, otherwise: u64) -> u64 {
    match u64_in(o) {
        Some(n) => n,
        None => otherwise,
    }
}

/// An integer argument, or the given one where it is not said.
pub fn u64_or_of(o: Option<&JsonValue>, otherwise: u64) -> (r: u64)
    ensures
        r == u64_or(json_in(o), otherwise),
{
    match u64_of(o) {
        Some(n) => n,
        None => otherwise,
    }
}

/// A text argument, or nothing where it is not said.
pub open spec fn text_at(args: Map<Seq<char>, Json>, key: Seq<char>) -> Seq<char> {
    match str_in(at(args, key)) {
        Some(s) => s,
        None => ""@,
    }
}

/// A text argument, or nothing where it is not said.
pub fn text_arg<'a>(args: &'a Record, key: &str) -> (r: &'a str)
    ensures
        r@ == text_at(args@, key@),
{
    match str_of(args.get(key)) {
        Some(s) => s,
        None => "",
    }
}

/// An integer as a JSON value.
pub open spec fn uint(n: u64) -> Json {
    Json::Number(Number::PosInt(n))
}

/// An object with one member.
pub open spec fn object1(key: Seq<char>, value: Json) -> Json {
    Json::Object(Map::empty().insert(key, value))
}

/// An array of texts.
pub open spec fn text_array(s: Seq<Seq<char>>) -> Json {
    Json::Array(Seq::new(s.len(), |i: int| Json::Str(s[i])))
}

/// A text as a JSON value.
pub fn json_text(s: &str) -> (r: JsonValue)
    ensures
        r@ == Json::Str(s@),
{
    JsonValue::String(s.to_owned())
}

/// An integer as a JSON value.
pub fn json_uint(n: u64) -> (r: JsonValue)
    ensures
        r@ == uint(n),
{
    JsonValue::Number(Number::PosInt(n))
}

/// An object with one member.
pub fn json_object1(key: &str, value: JsonValue) -> (r: JsonValue)
    ensures
        r@ == object1(key@, value@),
{
    JsonValue::Object(Record::new().with(key, value))
}

/// An array of texts.
pub fn json_texts(v: &Vec<String>) -> (r: JsonValue)
    ensures
        r@ == text_array(texts(v@)),
{
    let mut items: Vec<JsonValue> = Vec::new();
    let mut i: usize = 0;
    while i < v.len()
        invariant
            i <= v.len(),
            items.len() == i,
            forall|k: int| 0 <= k < i ==> json_of(items@[k]) == Json::Str(v@[k]@),
        decreases v.len() - i,
    {
        items.push(json_text(v[i].as_str()));
        i += 1;
    }
    let r = JsonValue::Array(items);
    assert(r@->Array_0 =~= text_array(texts(v@))->Array_0);
    r
}

impl Clone for Record {
    fn clone(&self) -> (r: Self)
        ensures
            r@ == self@,
        decreases self,
    {
        let mut entries: Vec<(String, JsonValue)> = Vec::new();
        let mut i: usize = 0;
        while i < self.entries.len()
            invariant
                i <= self.entries.len(),
                entries.len() == i,
                map_of(entries@) == map_of(self.entries@.take(i as int)),
            decreases self.entries.len() - i,
        {
            let entry = &self.entries[i];
            let ghost s = entries@;
            let copy = (entry.0.clone(), entry.1.clone());
            entries.push(copy);
            proof {
                assert(entries@.drop_last() =~= s);
                assert(self.entries@.take(i + 1).drop_last() =~= self.entries@.take(i as int));
            }
            i += 1;
        }
        assert(self.entries@.take(i as int) =~= self.entries@);
        Record { entries }
    }
}

impl Clone for JsonValue {
    fn clone(&self) -> (r: Self)
        ensures
            r@ == self@,
        decreases self,
    {
        match self {
            JsonValue::Null => JsonValue::Null,
            JsonValue::Bool(b) => JsonValue::Bool(*b),
            JsonValue::Number(n) => JsonValue::Number(*n),
            JsonValue::String(s) => JsonValue::String(s.clone()),
            JsonValue::Array(items) => {
                let mut copies: Vec<JsonValue> = Vec::new();
                let mut i: usize = 0;
                while i < items.len()
                    invariant
                        *self == JsonValue::Array(*items),
                        i <= items.len(),
                        copies.len() == i,
                        forall|k: int| 0 <= k < i ==> json_of(copies@[k]) == json_of(items@[k]),
                    decreases items.len() - i,
                {
                    assert(decreases_to!(*self => self->Array_0));
                    let copy = items[i].clone();
                    copies.push(copy);
                    i += 1;
                }
                let r = JsonValue::Array(copies);
                assert(r@->Array_0 =~= self@->Array_0);
                r
            },
            JsonValue::Object(r) => JsonValue::Object(r.clone()),
        }
    }
}

} // verus!
