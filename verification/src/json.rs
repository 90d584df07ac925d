use vstd::prelude::*;

use crate::strmap::{compare_str, lemma_to_map_dom, to_map, Cmp, StrMap};

verus! {

/// A JSON value as the backends send it. A number is kept as the text of its
/// decimal form, so no precision is lost in passing it on.
#[derive(Debug, PartialEq, Eq)]
pub enum JsonValue {
    Null,
    Bool(bool),
    Number(String),
    Str(String),
    Array(Vec<JsonValue>),
    Object(Vec<(String, JsonValue)>),
}

/// The mathematical form of a `JsonValue`.
pub enum Json {
    Null,
    Bool(bool),
    Number(Seq<char>),
    Str(Seq<char>),
    Array(Seq<Json>),
    Object(Seq<(Seq<char>, Json)>),
}

pub open spec fn json_view(v: JsonValue) -> Json
    decreases v, 0nat,
{
    match v {
        JsonValue::Null => Json::Null,
        JsonValue::Bool(b) => Json::Bool(b),
        JsonValue::Number(n) => Json::Number(n@),
        JsonValue::Str(s) => Json::Str(s@),
        JsonValue::Array(a) => Json::Array(json_seq_view(a@)),
        JsonValue::Object(o) => Json::Object(json_obj_view(o@)),
    }
}

pub open spec fn json_seq_view(s: Seq<JsonValue>) -> Seq<Json>
    decreases s, 1nat,
{
    if s.len() == 0 {
        Seq::empty()
    } else {
        json_seq_view(s.drop_last()).push(json_view(s.last()))
    }
}

pub open spec fn json_obj_view(s: Seq<(String, JsonValue)>) -> Seq<(Seq<char>, Json)>
    decreases s, 1nat,
{
    if s.len() == 0 {
        Seq::empty()
    } else {
        json_obj_view(s.drop_last()).push((s.last().0@, json_view(s.last().1)))
    }
}

impl View for JsonValue {
    type V = Json;

    open spec fn view(&self) -> Json {
        json_view(*self)
    }
}

} // verus!

verus! {

pub proof fn lemma_json_seq_view(s: Seq<JsonValue>)
    ensures
        json_seq_view(s).len() == s.len(),
        forall|i: int| 0 <= i < s.len() ==> #[trigger] json_seq_view(s)[i] == json_view(s[i]),
    decreases s.len(),
{
    if s.len() > 0 {
        lemma_json_seq_view(s.drop_last());
        assert forall|i: int| 0 <= i < s.len() implies #[trigger] json_seq_view(s)[i] == json_view(s[i]) by {
            if i < s.len() - 1 {
                assert(s.drop_last()[i] == s[i]);
            }
        }
    }
}

pub proof fn lemma_json_obj_view(s: Seq<(String, JsonValue)>)
    ensures
        json_obj_view(s).len() == s.len(),
        forall|i: int| 0 <= i < s.len() ==> #[trigger] json_obj_view(s)[i] == (s[i].0@, json_view(s[i].1)),
    decreases s.len(),
{
    if s.len() > 0 {
        lemma_json_obj_view(s.drop_last());
        assert forall|i: int| 0 <= i < s.len() implies #[trigger] json_obj_view(s)[i] == (s[i].0@, json_view(s[i].1)) by {
            if i < s.len() - 1 {
                assert(s.drop_last()[i] == s[i]);
            }
        }
    }
}

/// The value stored under `key` in a JSON object: the first member with that name.
pub open spec fn json_field(members: Seq<(Seq<char>, Json)>, key: Seq<char>) -> Option<Json>
    decreases members.len(),
{
    if members.len() == 0 {
        None
    } else if members[0].0 == key {
        Some(members[0].1)
    } else {
        json_field(members.drop_first(), key)
    }
}

/// `v.get(key)` on a JSON value: a member of an object; nothing for other values.
pub open spec fn json_get(v: Json, key: Seq<char>) -> Option<Json> {
    match v {
        Json::Object(members) => json_field(members, key),
        _ => None,
    }
}

impl JsonValue {
    /// A copy of the value.
    #[verifier::loop_isolation(false)]
    pub fn deep_clone(&self) -> (r: JsonValue)
        ensures
            r@ == self@,
        decreases self,
    {
        match self {
            JsonValue::Null => JsonValue::Null,
            JsonValue::Bool(b) => JsonValue::Bool(*b),
            JsonValue::Number(n) => JsonValue::Number(n.clone()),
            JsonValue::Str(s) => JsonValue::Str(s.clone()),
            JsonValue::Array(a) => {
                let mut out: Vec<JsonValue> = Vec::new();
                let mut i: usize = 0;
                while i < a.len()
                    invariant
                        i <= a@.len(),
                        out@.len() == i,
                        forall|j: int| 0 <= j < i ==> (#[trigger] out@[j])@ == a@[j]@,
                    decreases a@.len() - i,
                {
                    proof {
                        assert(decreases_to!(*self => *a));
                        assert(decreases_to!(*a => a@));
                        assert(decreases_to!(a@ => a@[i as int]));
                    }
                    let c = a[i].deep_clone();
                    out.push(c);
                    i = i + 1;
                }
                proof {
                    lemma_json_seq_view(out@);
                    lemma_json_seq_view(a@);
                    assert(json_seq_view(out@) =~= json_seq_view(a@));
                }
                JsonValue::Array(out)
            },
            JsonValue::Object(o) => {
                let mut out: Vec<(String, JsonValue)> = Vec::new();
                let mut i: usize = 0;
                while i < o.len()
                    invariant
                        i <= o@.len(),
                        out@.len() == i,
                        forall|j: int| 0 <= j < i ==> (#[trigger] out@[j]).0@ == o@[j].0@ && out@[j].1@ == o@[j].1@,
                    decreases o@.len() - i,
                {
                    proof {
                        assert(decreases_to!(*self => *o));
                        assert(decreases_to!(*o => o@));
                        assert(decreases_to!(o@ => o@[i as int]));
                        assert(decreases_to!(o@[i as int] => o@[i as int].1));
                    }
                    let c = o[i].1.deep_clone();
                    out.push((o[i].0.clone(), c));
                    i = i + 1;
                }
                proof {
                    lemma_json_obj_view(out@);
                    lemma_json_obj_view(o@);
                    assert(json_obj_view(out@) =~= json_obj_view(o@));
                }
                JsonValue::Object(out)
            },
        }
    }

    /// Whether the value is `null`.
    pub fn is_null(&self) -> (r: bool)
        ensures
            r == (self@ is Null),
    {
        match self {
            JsonValue::Null => true,
            _ => false,
        }
    }

    /// The member named `key`, when the value is an object that has one.
    #[verifier::loop_isolation(false)]
    pub fn get(&self, key: &str) -> (r: Option<&JsonValue>)
        ensures
            match r {
                Some(v) => json_get(self@, key@) == Some(v@),
                None => json_get(self@, key@) is None,
            },
    {
        match self {
            JsonValue::Object(o) => {
                proof {
                    lemma_json_obj_view(o@);
                }
                let ghost members = json_obj_view(o@);
                assert(members.skip(0) =~= members);
                let mut i: usize = 0;
                while i < o.len()
                    invariant
                        i <= o@.len(),
                        members == json_obj_view(o@),
                        members.len() == o@.len(),
                        forall|j: int| 0 <= j < o@.len() ==> #[trigger] members[j] == (o@[j].0@, json_view(o@[j].1)),
                        json_field(members, key@) == json_field(members.skip(i as int), key@),
                    decreases o@.len() - i,
                {
                    assert(members.skip(i as int)[0] == members[i as int]);
                    if compare_str(o[i].0.as_str(), key) == Cmp::Equal {
                        return Some(&o[i].1);
                    }
                    assert(members.skip(i as int).drop_first() =~= members.skip(i + 1));
                    i = i + 1;
                }
                None
            },
            _ => None,
        }
    }

    /// The elements, when the value is an array.
    pub fn as_array(&self) -> (r: Option<&Vec<JsonValue>>)
        ensures
            match r {
                Some(a) => self@ == Json::Array(json_seq_view(a@)),
                None => !(self@ is Array),
            },
    {
        match self {
            JsonValue::Array(a) => Some(a),
            _ => None,
        }
    }

    /// Whether the value is an object.
    pub fn is_object(&self) -> (r: bool)
        ensures
            r == (self@ is Object),
    {
        match self {
            JsonValue::Object(_) => true,
            _ => false,
        }
    }
}

} // verus!

verus! {

/// A log entry: field names with their values, in name order.
pub type Entry = StrMap<JsonValue>;

/// A present value that is not `null`.
pub open spec fn non_null(v: Option<Json>) -> Option<Json> {
    match v {
        Some(Json::Null) => None,
        other => other,
    }
}

/// `m` with `key` set to `v`, when there is a `v`.
pub open spec fn put(m: Map<Seq<char>, Json>, key: Seq<char>, v: Option<Json>) -> Map<Seq<char>, Json> {
    match v {
        Some(v) => m.insert(key, v),
        None => m,
    }
}

pub proof fn lemma_to_map_empty<T>(s: Seq<(Seq<char>, T)>)
    ensures
        (to_map(s) == Map::<Seq<char>, T>::empty()) <==> s.len() == 0,
{
    if s.len() > 0 {
        lemma_to_map_dom(s, s.last().0);
        assert(to_map(s).contains_key(s.last().0));
    }
}

/// Copies the member `key` of `obj` into `entry`, unless it is missing or `null`.
pub fn copy_field(entry: &mut Entry, obj: &JsonValue, key: &str)
    ensures
        final(entry).as_map() == put(old(entry).as_map(), key@, non_null(json_get(obj@, key@))),
{
    match obj.get(key) {
        Some(v) => {
            if !v.is_null() {
                entry.insert(crate::text::owned(key), v.deep_clone());
            }
        },
        None => {},
    }
}

} // verus!

verus! {

// ---------------------------------------------------------------------------
// Reading JSON text
// ---------------------------------------------------------------------------

#[verifier::external_type_specification]
#[verifier::external_body]
pub struct ExSerdeJsonValue(serde_json::Value);

/// What `serde_json::from_str::<serde_json::Value>` reads from a text, in this
/// library's form, each number kept as the text `serde_json` writes for it; `None`
/// when the text is not JSON.
pub uninterp spec fn json_of_text(text: Seq<char>) -> Option<Json>;

/// Moves a `serde_json::Value` into this library's form, variant by variant; a
/// number becomes the text `serde_json` writes for it. Nothing is claimed of it:
/// `parse_json_text` states what the two calls give together.
#[verifier::external_body]
fn value_to_json(v: serde_json::Value) -> JsonValue {
    match v {
        serde_json::Value::Null => JsonValue::Null,
        serde_json::Value::Bool(b) => JsonValue::Bool(b),
        serde_json::Value::Number(n) => JsonValue::Number(n.to_string()),
        serde_json::Value::String(s) => JsonValue::Str(s),
        serde_json::Value::Array(items) => JsonValue::Array(items.into_iter().map(value_to_json).collect()),
        serde_json::Value::Object(members) => {
            JsonValue::Object(members.into_iter().map(|(k, v)| (k, value_to_json(v))).collect())
        },
    }
}

/// `serde_json::from_str::<serde_json::Value>` on a text. Claimed: the result is the
/// named reading of the text, and it is absent exactly when the text is not JSON.
#[verifier::external_body]
pub(crate) fn parse_json_text(text: &str) -> (r: Option<JsonValue>)
    ensures
        match r {
            Some(v) => json_of_text(text@) == Some(v@),
            None => json_of_text(text@) is None,
        },
{
    serde_json::from_str::<serde_json::Value>(text).ok().map(value_to_json)
}

// ---------------------------------------------------------------------------
// Writing JSON text
// ---------------------------------------------------------------------------

/// The compact text that `serde_json` writes for a value (its `Display`), each
/// number taken from its text.
pub uninterp spec fn json_text(v: Json) -> Seq<char>;

/// Moves a value of this library's form into a `serde_json::Value`, variant by
/// variant; a number is read back from its text, and a text that `serde_json` does
/// not read as a number becomes `null`. Nothing is claimed of it: `render_json`
/// states what the two calls give together.
#[verifier::external_body]
fn json_to_value(v: &JsonValue) -> serde_json::Value {
    match v {
        JsonValue::Null => serde_json::Value::Null,
        JsonValue::Bool(b) => serde_json::Value::Bool(*b),
        JsonValue::Number(text) => text.parse::<serde_json::Number>().map_or(serde_json::Value::Null, serde_json::Value::Number),
        JsonValue::Str(s) => serde_json::Value::String(s.clone()),
        JsonValue::Array(items) => serde_json::Value::Array(items.iter().map(json_to_value).collect()),
        JsonValue::Object(members) => {
            serde_json::Value::Object(members.iter().map(|(k, v)| (k.clone(), json_to_value(v))).collect())
        },
    }
}

/// `serde_json::Value`'s `Display` (`to_string`) on a value. Claimed: the result is
/// the named text of the value.
#[verifier::external_body]
pub(crate) fn render_json(v: &JsonValue) -> (r: String)
    ensures
        r@ == json_text(v@),
{
    json_to_value(v).to_string()
}

} // verus!
