//! A JSON document model: what the bot reads from and writes to the iLink
//! protocol's JSON, held as plain values.
use crate::text::{chars_eq, chars_of};
use vstd::prelude::*;

verus! {

/// A JSON value.
///
/// Numbers are held as the protocol reads them: integers that fit `i64` as
/// `Int`, larger unsigned integers as `UInt`, and any other number by its
/// text as `Decimal`. An object keeps its members in order.
#[derive(Debug)]
pub enum JsonValue {
    Null,
    Bool(bool),
    Int(i64),
    UInt(u64),
    Decimal(String),
    Str(String),
    Array(Vec<JsonValue>),
    Object(Vec<(String, JsonValue)>),
}

/// The mathematical value of a JSON document.
pub enum Json {
    Null,
    Bool(bool),
    Int(i64),
    UInt(u64),
    Decimal(Seq<char>),
    Str(Seq<char>),
    Array(Seq<Json>),
    Object(Seq<(Seq<char>, Json)>),
}

pub open spec fn json_of(v: JsonValue) -> Json
    decreases v,
{
    match v {
        JsonValue::Null => Json::Null,
        JsonValue::Bool(b) => Json::Bool(b),
        JsonValue::Int(i) => Json::Int(i),
        JsonValue::UInt(u) => Json::UInt(u),
        JsonValue::Decimal(s) => Json::Decimal(s@),
        JsonValue::Str(s) => Json::Str(s@),
        JsonValue::Array(items) => Json::Array(json_of_items(items@)),
        JsonValue::Object(entries) => Json::Object(json_of_entries(entries@)),
    }
}

pub open spec fn json_of_items(s: Seq<JsonValue>) -> Seq<Json>
    decreases s,
{
    if s.len() == 0 {
        Seq::empty()
    } else {
        json_of_items(s.drop_last()).push(json_of(s.last()))
    }
}

pub open spec fn json_of_entries(s: Seq<(String, JsonValue)>) -> Seq<(Seq<char>, Json)>
    decreases s,
{
    if s.len() == 0 {
        Seq::empty()
    } else {
        json_of_entries(s.drop_last()).push((s.last().0@, json_of(s.last().1)))
    }
}

impl View for JsonValue {
    type V = Json;

    open spec fn view(&self) -> Json {
        json_of(*self)
    }
}

} // verus!

verus! {

pub proof fn lemma_json_of_items(s: Seq<JsonValue>)
    ensures
        json_of_items(s).len() == s.len(),
        forall|i: int| 0 <= i < s.len() ==> #[trigger] json_of_items(s)[i] == json_of(s[i]),
    decreases s.len(),
{
    if s.len() > 0 {
        lemma_json_of_items(s.drop_last());
    }
}

pub proof fn lemma_json_of_entries(s: Seq<(String, JsonValue)>)
    ensures
        json_of_entries(s).len() == s.len(),
        forall|i: int|
            0 <= i < s.len() ==> #[trigger] json_of_entries(s)[i] == (s[i].0@, json_of(s[i].1)),
    decreases s.len(),
{
    if s.len() > 0 {
        lemma_json_of_entries(s.drop_last());
    }
}

/// The value of the first member named `key`.
pub open spec fn lookup(entries: Seq<(Seq<char>, Json)>, key: Seq<char>) -> Option<Json>
    decreases entries.len(),
{
    if entries.len() == 0 {
        None
    } else if entries[0].0 == key {
        Some(entries[0].1)
    } else {
        lookup(entries.drop_first(), key)
    }
}

/// `value[key]`: the member `key` of an object, or `Null` when `value` is not
/// an object or has no such member.
pub open spec fn get(v: Json, key: Seq<char>) -> Json {
    match v {
        Json::Object(entries) => match lookup(entries, key) {
            Some(x) => x,
            None => Json::Null,
        },
        _ => Json::Null,
    }
}

/// `Value::as_str`.
pub open spec fn as_str(v: Json) -> Option<Seq<char>> {
    match v {
        Json::Str(s) => Some(s),
        _ => None,
    }
}

/// `Value::as_str().unwrap_or("")`.
pub open spec fn str_or_empty(v: Json) -> Seq<char> {
    match v {
        Json::Str(s) => s,
        _ => Seq::empty(),
    }
}

/// `Value::as_i64`.
pub open spec fn as_i64(v: Json) -> Option<i64> {
    match v {
        Json::Int(i) => Some(i),
        _ => None,
    }
}

/// `Value::as_array`.
pub open spec fn as_array(v: Json) -> Option<Seq<Json>> {
    match v {
        Json::Array(items) => Some(items),
        _ => None,
    }
}

impl JsonValue {
    /// A copy of the value.
    pub fn deep_clone(&self) -> (r: JsonValue)
        ensures
            r@ == self@,
        decreases self,
    {
        match self {
            JsonValue::Null => JsonValue::Null,
            JsonValue::Bool(b) => JsonValue::Bool(*b),
            JsonValue::Int(i) => JsonValue::Int(*i),
            JsonValue::UInt(u) => JsonValue::UInt(*u),
            JsonValue::Decimal(s) => JsonValue::Decimal(s.clone()),
            JsonValue::Str(s) => JsonValue::Str(s.clone()),
            JsonValue::Array(items) => {
                let mut out: Vec<JsonValue> = Vec::new();
                let mut i: usize = 0;
                assert forall|j: int| 0 <= j < items@.len() implies decreases_to!(*self => items@[j]) by {
                    assert(decreases_to!(*self => *items));
                    assert(decreases_to!(*items => items@[j]));
                }
                while i < items.len()
                    invariant
                        i <= items@.len(),
                        forall|j: int| 0 <= j < items@.len() ==> decreases_to!(*self => items@[j]),
                        json_of_items(out@) == json_of_items(items@.take(i as int)),
                    decreases items@.len() - i,
                {
                    let c = items[i].deep_clone();
                    let ghost prev = out@;
                    out.push(c);
                    i = i + 1;
                    proof {
                        assert(out@.drop_last() =~= prev);
                        assert(items@.take(i as int).drop_last() =~= items@.take(i - 1));
                    }
                }
                assert(items@.take(items@.len() as int) =~= items@);
                JsonValue::Array(out)
            },
            JsonValue::Object(entries) => {
                let mut out: Vec<(String, JsonValue)> = Vec::new();
                let mut i: usize = 0;
                assert forall|j: int| 0 <= j < entries@.len() implies decreases_to!(*self => entries@[j].1) by {
                    assert(decreases_to!(*self => *entries));
                    assert(decreases_to!(*entries => entries@[j]));
                    assert(decreases_to!(entries@[j] => entries@[j].1));
                }
                while i < entries.len()
                    invariant
                        i <= entries@.len(),
                        forall|j: int| 0 <= j < entries@.len() ==> decreases_to!(*self => entries@[j].1),
                        json_of_entries(out@) == json_of_entries(entries@.take(i as int)),
                    decreases entries@.len() - i,
                {
                    let k = entries[i].0.clone();
                    let c = entries[i].1.deep_clone();
                    let ghost prev = out@;
                    out.push((k, c));
                    i = i + 1;
                    proof {
                        assert(out@.drop_last() =~= prev);
                        assert(entries@.take(i as int).drop_last() =~= entries@.take(i - 1));
                    }
                }
                assert(entries@.take(entries@.len() as int) =~= entries@);
                JsonValue::Object(out)
            },
        }
    }
}

impl JsonValue {
    /// `value[key]`, borrowed; `None` stands for the `Null` that indexing
    /// gives for a missing member or a non-object.
    pub fn field(&self, key: &str) -> (r: Option<&JsonValue>)
        ensures
            match r {
                Some(x) => x@ == get(self@, key@),
                None => get(self@, key@) == Json::Null,
            },
    {
        match self {
            JsonValue::Object(entries) => {
                let kc = chars_of(key);
                let ghost es = json_of_entries(entries@);
                proof {
                    lemma_json_of_entries(entries@);
                }
                let mut i: usize = 0;
                assert(es.skip(0) =~= es);
                while i < entries.len()
                    invariant
                        i <= entries@.len() == es.len(),
                        kc@ == key@,
                        es == json_of_entries(entries@),
                        self@ == Json::Object(es),
                        forall|j: int| 0 <= j < entries@.len() ==> #[trigger] es[j] == (entries@[j].0@, json_of(entries@[j].1)),
                        lookup(es, key@) == lookup(es.skip(i as int), key@),
                    decreases entries@.len() - i,
                {
                    let ec = chars_of(entries[i].0.as_str());
                    proof {
                        let rest = es.skip(i as int);
                        assert(rest[0] == es[i as int]);
                        assert(rest.drop_first() =~= es.skip(i + 1));
                    }
                    if chars_eq(&ec, &kc) {
                        return Some(&entries[i].1);
                    }
                    i = i + 1;
                }
                assert(es.skip(i as int) =~= Seq::<(Seq<char>, Json)>::empty());
                None
            },
            _ => None,
        }
    }

    /// `value[key].as_str()`, copied.
    pub fn str_field(&self, key: &str) -> (r: Option<String>)
        ensures
            match r {
                Some(s) => as_str(get(self@, key@)) == Some(s@),
                None => as_str(get(self@, key@)) is None,
            },
    {
        match self.field(key) {
            Some(JsonValue::Str(s)) => Some(s.clone()),
            _ => None,
        }
    }

    /// `value[key].as_str().unwrap_or("")`, copied.
    pub fn str_field_or_empty(&self, key: &str) -> (r: String)
        ensures
            r@ == str_or_empty(get(self@, key@)),
    {
        match self.str_field(key) {
            Some(s) => s,
            None => String::new(),
        }
    }

    /// `value[key].as_i64()`.
    pub fn i64_field(&self, key: &str) -> (r: Option<i64>)
        ensures
            r == as_i64(get(self@, key@)),
    {
        match self.field(key) {
            Some(JsonValue::Int(i)) => Some(*i),
            _ => None,
        }
    }

    /// `value.as_str()`, copied.
    pub fn as_string(&self) -> (r: Option<String>)
        ensures
            match r {
                Some(s) => as_str(self@) == Some(s@),
                None => as_str(self@) is None,
            },
    {
        match self {
            JsonValue::Str(s) => Some(s.clone()),
            _ => None,
        }
    }

    /// `value.as_i64()`.
    pub fn as_int(&self) -> (r: Option<i64>)
        ensures
            r == as_i64(self@),
    {
        match self {
            JsonValue::Int(i) => Some(*i),
            _ => None,
        }
    }

    /// `value.is_null()`.
    pub fn is_null(&self) -> (r: bool)
        ensures
            r == (self@ == Json::Null),
    {
        match self {
            JsonValue::Null => true,
            _ => false,
        }
    }

    /// `value[key].clone()`: the member, copied, or `Null`.
    pub fn field_or_null(&self, key: &str) -> (r: JsonValue)
        ensures
            r@ == get(self@, key@),
    {
        match self.field(key) {
            Some(x) => x.deep_clone(),
            None => JsonValue::Null,
        }
    }
}

impl JsonValue {
    /// `value[key].as_array()`, borrowed.
    pub fn array_field(&self, key: &str) -> (r: Option<&Vec<JsonValue>>)
        ensures
            match r {
                Some(v) => as_array(get(self@, key@)) == Some(json_of_items(v@)),
                None => as_array(get(self@, key@)) is None,
            },
    {
        match self.field(key) {
            Some(JsonValue::Array(items)) => Some(items),
            _ => None,
        }
    }
}

} // verus!

verus! {

/// Appends the member `key: value` to an object's members.
pub fn push_entry(entries: &mut Vec<(String, JsonValue)>, key: &str, value: JsonValue)
    ensures
        json_of_entries(final(entries)@) == json_of_entries(old(entries)@).push((key@, value@)),
{
    let ghost before = entries@;
    entries.push((String::from_str(key), value));
    assert(entries@.drop_last() =~= before);
}

/// Appends `value` to an array's items.
pub fn push_item(items: &mut Vec<JsonValue>, value: JsonValue)
    ensures
        json_of_items(final(items)@) == json_of_items(old(items)@).push(value@),
{
    let ghost before = items@;
    items.push(value);
    assert(items@.drop_last() =~= before);
}

/// A string value.
pub fn json_str(s: &str) -> (r: JsonValue)
    ensures
        r@ == Json::Str(s@),
{
    JsonValue::Str(String::from_str(s))
}

/// A member, with its value replaced when it is named `key`.
pub open spec fn member_with(e: (Seq<char>, Json), key: Seq<char>, value: Json) -> (Seq<char>, Json) {
    if e.0 == key {
        (e.0, value)
    } else {
        e
    }
}

/// The members of an object with `key` set to `value`: every member named
/// `key` takes the new value, or the member is added at the end when there is
/// none.
pub open spec fn with_member(entries: Seq<(Seq<char>, Json)>, key: Seq<char>, value: Json) -> Seq<
    (Seq<char>, Json),
> {
    if exists|i: int| 0 <= i < entries.len() && #[trigger] entries[i].0 == key {
        entries.map_values(|e: (Seq<char>, Json)| member_with(e, key, value))
    } else {
        entries.push((key, value))
    }
}

} // verus!
