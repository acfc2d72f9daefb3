//! A model of JSON values, and the parsing of a JSON array text.
//!
//! An object is a list of entries; when a key occurs more than once, the last
//! entry is the one that counts, as when the entries are inserted one by one
//! into a map.

use vstd::prelude::*;

use crate::text::text_eq;

verus! {

broadcast use vstd::std_specs::vec::axiom_vec_index_decreases;

/// A JSON value. A number is kept as the text that JSON writes for it.
#[derive(Debug)]
pub enum Json {
    Null,
    Bool(bool),
    Number(String),
    Str(String),
    Array(Vec<Json>),
    Object(Vec<(String, Json)>),
}

/// The mathematical value of a [`Json`].
pub enum JsonV {
    Null,
    Bool(bool),
    Number(Seq<char>),
    Str(Seq<char>),
    Array(Seq<JsonV>),
    Object(Seq<(Seq<char>, JsonV)>),
}

impl View for Json {
    type V = JsonV;

    open spec fn view(&self) -> JsonV
        decreases self,
    {
        match self {
            Json::Null => JsonV::Null,
            Json::Bool(b) => JsonV::Bool(*b),
            Json::Number(n) => JsonV::Number(n@),
            Json::Str(s) => JsonV::Str(s@),
            Json::Array(v) => JsonV::Array(
                Seq::new(v.len() as nat, |i: int| if 0 <= i < v.len() { v[i].view() } else { JsonV::Null }),
            ),
            Json::Object(v) => JsonV::Object(
                Seq::new(
                    v.len() as nat,
                    |i: int|
                        (
                            v@[i].0@,
                            if 0 <= i < v.len() {
                                v[i].1.view()
                            } else {
                                JsonV::Null
                            },
                        ),
                ),
            ),
        }
    }
}

/// The values of a list of JSON values.
pub open spec fn jsons_view(s: Seq<Json>) -> Seq<JsonV> {
    Seq::new(s.len(), |i: int| s[i]@)
}

/// The values of the entries of a JSON object.
pub open spec fn entries_view(s: Seq<(String, Json)>) -> Seq<(Seq<char>, JsonV)> {
    Seq::new(s.len(), |i: int| (s[i].0@, s[i].1@))
}

/// The value that `key` has in the object entries `entries`: the last entry
/// with that key wins.
pub open spec fn lookup(entries: Seq<(Seq<char>, JsonV)>, key: Seq<char>) -> Option<JsonV>
    decreases entries.len(),
{
    if entries.len() == 0 {
        None
    } else if entries.last().0 == key {
        Some(entries.last().1)
    } else {
        lookup(entries.drop_last(), key)
    }
}

/// Whether the object entries have an entry with the key.
pub open spec fn has_key(entries: Seq<(Seq<char>, JsonV)>, key: Seq<char>) -> bool {
    exists|i: int| 0 <= i < entries.len() && #[trigger] entries[i].0 == key
}

/// A key has a value exactly when some entry has it.
pub proof fn lemma_lookup_has_key(entries: Seq<(Seq<char>, JsonV)>, key: Seq<char>)
    ensures
        lookup(entries, key) is Some <==> has_key(entries, key),
    decreases entries.len(),
{
    if entries.len() > 0 {
        lemma_lookup_has_key(entries.drop_last(), key);
        if has_key(entries, key) && entries.last().0 != key {
            let i = choose|i: int| 0 <= i < entries.len() && #[trigger] entries[i].0 == key;
            assert(entries.drop_last()[i].0 == key);
        }
        if has_key(entries.drop_last(), key) {
            let i = choose|i: int|
                0 <= i < entries.drop_last().len() && #[trigger] entries.drop_last()[i].0 == key;
            assert(entries[i].0 == key);
        }
    }
}

/// The value that `key` has in the object entries `map` (the last entry with
/// that key), as `serde_json::Map::get` gives it.
pub fn get<'a>(map: &'a Vec<(String, Json)>, key: &str) -> (r: Option<&'a Json>)
    ensures
        match r {
            Some(j) => lookup(entries_view(map@), key@) == Some(j@),
            None => lookup(entries_view(map@), key@) is None,
        },
{
    let mut i = map.len();
    assert(map@.take(i as int) =~= map@);
    while i > 0
        invariant
            i <= map.len(),
            lookup(entries_view(map@), key@) == lookup(entries_view(map@.take(i as int)), key@),
        decreases i,
    {
        proof {
            assert(entries_view(map@.take(i as int)).drop_last() =~= entries_view(
                map@.take(i - 1),
            ));
        }
        if text_eq(map[i - 1].0.as_str(), key) {
            return Some(&map[i - 1].1);
        }
        i = i - 1;
    }
    None
}

impl Json {
    /// The text of a JSON string, and nothing for the other values.
    pub fn as_text(&self) -> (r: Option<&String>)
        ensures
            match self@ {
                JsonV::Str(s) => r is Some && r->0@ == s,
                _ => r is None,
            },
    {
        match self {
            Json::Str(s) => Some(s),
            _ => None,
        }
    }

    /// A copy of the value.
    pub fn copy(&self) -> (r: Json)
        ensures
            r@ == self@,
        decreases self, 0nat,
    {
        match self {
            Json::Null => Json::Null,
            Json::Bool(b) => Json::Bool(*b),
            Json::Number(n) => Json::Number(n.clone()),
            Json::Str(s) => Json::Str(s.clone()),
            Json::Array(v) => {
                let out = copy_values(v);
                proof {
                    lemma_array_view(*v);
                    lemma_array_view(out);
                }
                Json::Array(out)
            },
            Json::Object(v) => {
                let out = copy_entries(v);
                proof {
                    lemma_object_view(*v);
                    lemma_object_view(out);
                }
                Json::Object(out)
            },
        }
    }
}

/// The value of an object is the list of the values of its entries.
pub proof fn lemma_object_view(v: Vec<(String, Json)>)
    ensures
        Json::Object(v)@ == JsonV::Object(entries_view(v@)),
{
    let j = Json::Object(v);
    assert(j@ is Object);
    assert(j@->Object_0.len() == v.len());
    assert(j@->Object_0 =~= entries_view(v@));
}

/// The value of an array is the list of the values of its elements.
pub proof fn lemma_array_view(v: Vec<Json>)
    ensures
        Json::Array(v)@ == JsonV::Array(jsons_view(v@)),
{
    let j = Json::Array(v);
    assert(j@ is Array);
    assert(j@->Array_0.len() == v.len());
    assert(j@->Array_0 =~= jsons_view(v@));
}

/// A copy of a list of JSON values.
pub fn copy_values(v: &Vec<Json>) -> (r: Vec<Json>)
    ensures
        r.len() == v.len(),
        forall|k: int| 0 <= k < v.len() ==> (#[trigger] r[k])@ == v[k]@,
        jsons_view(r@) == jsons_view(v@),
    decreases v, 1nat,
{
    let mut out: Vec<Json> = Vec::new();
    let mut i: usize = 0;
    while i < v.len()
        invariant
            i <= v.len(),
            out.len() == i,
            forall|k: int| 0 <= k < i ==> (#[trigger] out[k])@ == v[k]@,
        decreases v.len() - i,
    {
        proof {
            assert(decreases_to!(*v => v[i as int]));
        }
        let c = v[i].copy();
        out.push(c);
        i = i + 1;
    }
    assert(jsons_view(out@) =~= jsons_view(v@));
    out
}

/// A copy of the entries of a JSON object.
pub fn copy_entries(v: &Vec<(String, Json)>) -> (r: Vec<(String, Json)>)
    ensures
        entries_view(r@) == entries_view(v@),
        r.len() == v.len(),
        forall|k: int| 0 <= k < v.len() ==> (#[trigger] r[k]).0@ == v[k].0@ && r[k].1@ == v[k].1@,
    decreases v, 1nat,
{
    let mut out: Vec<(String, Json)> = Vec::new();
    let mut i: usize = 0;
    while i < v.len()
        invariant
            i <= v.len(),
            out.len() == i,
            forall|k: int| 0 <= k < i ==> (#[trigger] out[k]).0@ == v[k].0@ && out[k].1@ == v[k].1@,
        decreases v.len() - i,
    {
        proof {
            assert(decreases_to!(*v => v[i as int]));
        }
        let c = v[i].1.copy();
        out.push((v[i].0.clone(), c));
        i = i + 1;
    }
    assert(entries_view(out@) =~= entries_view(v@));
    out
}

/// What `serde_json::from_str::<Vec<serde_json::Value>>` makes of a text:
/// the values of the array, or the text of the error.
pub uninterp spec fn json_array_of_text(text: Seq<char>) -> Result<Seq<JsonV>, Seq<char>>;

#[verifier::external_type_specification]
#[verifier::external_body]
pub struct ExValue(serde_json::Value);

/// Turns a `serde_json::Value` into a [`Json`], variant by variant; a number
/// becomes the text that `serde_json` writes for it. It is the conversion of
/// the results of [`parse_json_array`] and [`parse_json_value`], split out
/// because it recurses, and has no contract of its own: theirs cover it.
#[verifier::external_body]
fn json_of_value(value: serde_json::Value) -> Json {
    match value {
        serde_json::Value::Null => Json::Null,
        serde_json::Value::Bool(b) => Json::Bool(b),
        serde_json::Value::Number(n) => Json::Number(n.to_string()),
        serde_json::Value::String(s) => Json::Str(s),
        serde_json::Value::Array(a) => Json::Array(a.into_iter().map(json_of_value).collect()),
        serde_json::Value::Object(m) => Json::Object(
            m.into_iter().map(|(k, v)| (k, json_of_value(v))).collect(),
        ),
    }
}

/// Calls `serde_json::from_str::<Vec<serde_json::Value>>` on the text. The
/// contract says that the result is what that call gives on the text (named
/// [`json_array_of_text`]), the error taken by its message; what JSON text
/// is accepted is not written out.
#[verifier::external_body]
pub(crate) fn parse_json_array(text: &str) -> (r: Result<Vec<Json>, String>)
    ensures
        match r {
            Ok(v) => json_array_of_text(text@) == Ok::<Seq<JsonV>, Seq<char>>(jsons_view(v@)),
            Err(e) => json_array_of_text(text@) == Err::<Seq<JsonV>, Seq<char>>(e@),
        },
{
    match serde_json::from_str::<Vec<serde_json::Value>>(text) {
        Ok(values) => Ok(values.into_iter().map(json_of_value).collect()),
        Err(e) => Err(e.to_string()),
    }
}

/// What `serde_json::from_str::<serde_json::Value>` makes of a text: the
/// value, or the text of the error.
pub uninterp spec fn json_value_of_text(text: Seq<char>) -> Result<JsonV, Seq<char>>;

/// Calls `serde_json::from_str::<serde_json::Value>` on the text. The
/// contract says that the result is what that call gives on the text (named
/// [`json_value_of_text`]), the error taken by its message.
#[verifier::external_body]
pub(crate) fn parse_json_value(text: &str) -> (r: Result<Json, String>)
    ensures
        match r {
            Ok(v) => json_value_of_text(text@) == Ok::<JsonV, Seq<char>>(v@),
            Err(e) => json_value_of_text(text@) == Err::<JsonV, Seq<char>>(e@),
        },
{
    match serde_json::from_str::<serde_json::Value>(text) {
        Ok(value) => Ok(json_of_value(value)),
        Err(e) => Err(e.to_string()),
    }
}

} // verus!
