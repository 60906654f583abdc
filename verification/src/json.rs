//! A JSON document model.

use vstd::prelude::*;
use crate::text::{chars_eq, chars_of};

verus! {

/// Mathematical JSON value.
pub enum Json {
    Null,
    Bool(bool),
    Number(Seq<char>),
    Str(Seq<char>),
    Array(Seq<Json>),
    Object(Seq<(Seq<char>, Json)>),
}

/// One member of a JSON object.
#[derive(Debug, PartialEq, Eq)]
pub struct Member {
    pub key: String,
    pub value: JsonValue,
}

/// Executable JSON value; numbers keep their textual form.
#[derive(Debug, PartialEq, Eq)]
pub enum JsonValue {
    Null,
    Bool(bool),
    Number(String),
    Str(String),
    Array(Vec<JsonValue>),
    Object(Vec<Member>),
}

impl JsonValue {
    pub open spec fn model(&self) -> Json
        decreases self,
    {
        match self {
            JsonValue::Null => Json::Null,
            JsonValue::Bool(b) => Json::Bool(*b),
            JsonValue::Number(n) => Json::Number(n@),
            JsonValue::Str(s) => Json::Str(s@),
            JsonValue::Array(items) => {
                proof {
                    assert forall|i: int| 0 <= i < items@.len() implies decreases_to!(self => items@[i]) by {
                        assert(decreases_to!(self => items));
                        assert(decreases_to!(items => items@));
                        assert(decreases_to!(items@ => items@[i]));
                    }
                }
                Json::Array(Seq::new(items.len() as nat, |i: int| if 0 <= i < items@.len() { items@[i].model() } else { Json::Null }))
            }
            JsonValue::Object(ms) => {
                proof {
                    assert forall|i: int| 0 <= i < ms@.len() implies decreases_to!(self => ms@[i].value) by {
                        assert(*self == JsonValue::Object(*ms));
                        assert(decreases_to!(*self => *ms));
                        assert(decreases_to!(*ms => ms@));
                        assert(decreases_to!(ms@ => ms@[i]));
                        assert(decreases_to!(ms@[i] => ms@[i].value));
                    }
                }
                Json::Object(Seq::new(ms.len() as nat, |i: int| if 0 <= i < ms@.len() { (ms@[i].key@, ms@[i].value.model()) } else { (Seq::empty(), Json::Null) }))
            }
        }
    }
}

/// Model of a member list.
pub open spec fn members_model(ms: Seq<Member>) -> Seq<(Seq<char>, Json)> {
    Seq::new(ms.len(), |i: int| (ms[i].key@, ms[i].value.model()))
}

pub proof fn lemma_object_model(ms: Vec<Member>)
    ensures
        JsonValue::Object(ms).model() == Json::Object(members_model(ms@)),
{
    let m = JsonValue::Object(ms).model();
    let s = m->Object_0;
    assert(s.len() == ms@.len());
    assert forall|i: int| 0 <= i < s.len() implies s[i] == members_model(ms@)[i] by {}
    assert(s =~= members_model(ms@));
}

pub proof fn lemma_array_model(items: Vec<JsonValue>)
    ensures
        JsonValue::Array(items).model() == Json::Array(items@.map_values(|v: JsonValue| v.model())),
{
    let m = JsonValue::Array(items).model();
    let s = m->Array_0;
    assert(s.len() == items@.len());
    assert forall|i: int| 0 <= i < s.len() implies s[i] == items@.map_values(|v: JsonValue| v.model())[i] by {}
    assert(s =~= items@.map_values(|v: JsonValue| v.model()));
}

/// Index of the first member with key `k`, if any.
pub open spec fn first_index(ms: Seq<(Seq<char>, Json)>, k: Seq<char>) -> Option<int>
    decreases ms.len(),
{
    if ms.len() == 0 {
        None
    } else if ms[0].0 == k {
        Some(0)
    } else {
        match first_index(ms.drop_first(), k) {
            Some(i) => Some(i + 1),
            None => None,
        }
    }
}

/// Value of the first member with key `k` (object lookup).
pub open spec fn obj_get(ms: Seq<(Seq<char>, Json)>, k: Seq<char>) -> Option<Json> {
    match first_index(ms, k) {
        Some(i) => Some(ms[i].1),
        None => None,
    }
}

/// Sets key `k` to `v`: the first member with that key is updated in place,
/// otherwise a member is appended.
pub open spec fn obj_set(ms: Seq<(Seq<char>, Json)>, k: Seq<char>, v: Json) -> Seq<(Seq<char>, Json)> {
    match first_index(ms, k) {
        Some(i) => ms.update(i, (k, v)),
        None => ms.push((k, v)),
    }
}

/// Removes every member with key `k`.
pub open spec fn obj_remove(ms: Seq<(Seq<char>, Json)>, k: Seq<char>) -> Seq<(Seq<char>, Json)> {
    ms.filter(key_is_not(k))
}

/// Whether a member's key differs from `k`.
pub open spec fn key_is_not(k: Seq<char>) -> spec_fn((Seq<char>, Json)) -> bool {
    |m: (Seq<char>, Json)| m.0 != k
}

/// Lookup of `k` in `j` when `j` is an object; `None` otherwise.
pub open spec fn json_get(j: Json, k: Seq<char>) -> Option<Json> {
    match j {
        Json::Object(ms) => obj_get(ms, k),
        _ => None,
    }
}

/// The text of `j` when it is a string.
pub open spec fn json_str(j: Json) -> Option<Seq<char>> {
    match j {
        Json::Str(s) => Some(s),
        _ => None,
    }
}

pub proof fn lemma_first_index_bounds(ms: Seq<(Seq<char>, Json)>, k: Seq<char>)
    ensures
        first_index(ms, k) matches Some(i) ==> 0 <= i < ms.len() && ms[i].0 == k
            && forall|j: int| 0 <= j < i ==> ms[j].0 != k,
        first_index(ms, k) is None ==> forall|j: int| 0 <= j < ms.len() ==> ms[j].0 != k,
    decreases ms.len(),
{
    if ms.len() > 0 {
        lemma_first_index_bounds(ms.drop_first(), k);
        if ms[0].0 != k {
            assert forall|j: int| 1 <= j < ms.len() implies ms[j] == ms.drop_first()[j - 1] by {}
        }
    }
}

/// Characterisation of `first_index` by its defining property.
pub proof fn lemma_first_index_is(ms: Seq<(Seq<char>, Json)>, k: Seq<char>, i: int)
    requires
        0 <= i < ms.len(),
        ms[i].0 == k,
        forall|j: int| 0 <= j < i ==> ms[j].0 != k,
    ensures
        first_index(ms, k) == Some(i),
{
    lemma_first_index_bounds(ms, k);
    match first_index(ms, k) {
        Some(j) => {
            if j < i {
            } else if j > i {
            }
        },
        None => {},
    }
}

impl JsonValue {
    /// A structurally equal copy.
    pub fn duplicate(&self) -> (r: JsonValue)
        ensures
            r.model() == self.model(),
        decreases self,
    {
        match self {
            JsonValue::Null => JsonValue::Null,
            JsonValue::Bool(b) => JsonValue::Bool(*b),
            JsonValue::Number(n) => JsonValue::Number(n.clone()),
            JsonValue::Str(t) => JsonValue::Str(t.clone()),
            JsonValue::Array(items) => {
                proof {
                    assert forall|j: int| 0 <= j < items@.len() implies decreases_to!(self => items@[j]) by {
                        assert(decreases_to!(self => items));
                        assert(decreases_to!(items => items@));
                        assert(decreases_to!(items@ => items@[j]));
                    }
                }
                let mut out: Vec<JsonValue> = Vec::new();
                let mut i: usize = 0;
                while i < items.len()
                    invariant
                        i <= items.len(),
                        forall|j: int| 0 <= j < items@.len() ==> decreases_to!(self => items@[j]),
                        out.len() == i,
                        forall|j: int| 0 <= j < i ==> #[trigger] out@[j].model() == items@[j].model(),
                    decreases items.len() - i,
                {
                    let v = items[i].duplicate();
                    out.push(v);
                    i = i + 1;
                }
                proof {
                    lemma_array_model(out);
                    lemma_array_model(*items);
                    assert(out@.map_values(|v: JsonValue| v.model()) =~= items@.map_values(|v: JsonValue| v.model()));
                }
                JsonValue::Array(out)
            },
            JsonValue::Object(ms) => {
                proof {
                    assert forall|j: int| 0 <= j < ms@.len() implies decreases_to!(self => ms@[j].value) by {
                        assert(decreases_to!(self => ms));
                        assert(decreases_to!(ms => ms@));
                        assert(decreases_to!(ms@ => ms@[j]));
                        assert(decreases_to!(ms@[j] => ms@[j].value));
                    }
                }
                let mut out: Vec<Member> = Vec::new();
                let mut i: usize = 0;
                while i < ms.len()
                    invariant
                        i <= ms.len(),
                        forall|j: int| 0 <= j < ms@.len() ==> decreases_to!(self => ms@[j].value),
                        out.len() == i,
                        forall|j: int| 0 <= j < i ==> #[trigger] out@[j].value.model() == ms@[j].value.model()
                            && out@[j].key@ == ms@[j].key@,
                    decreases ms.len() - i,
                {
                    let v = ms[i].value.duplicate();
                    out.push(Member { key: ms[i].key.clone(), value: v });
                    i = i + 1;
                }
                proof {
                    lemma_object_model(out);
                    lemma_object_model(*ms);
                    assert(members_model(out@) =~= members_model(ms@));
                }
                JsonValue::Object(out)
            },
        }
    }

    /// The string content, when this value is a JSON string.
    pub fn as_str(&self) -> (r: Option<&String>)
        ensures
            r matches Some(t) ==> json_str(self.model()) == Some(t@),
            r is None ==> json_str(self.model()) is None,
    {
        match self {
            JsonValue::Str(t) => Some(t),
            _ => None,
        }
    }

    pub fn is_null(&self) -> (r: bool)
        ensures
            r == (self.model() == Json::Null),
    {
        match self {
            JsonValue::Null => true,
            _ => false,
        }
    }

    /// Lookup of a key in an object value.
    pub fn get(&self, key: &[char]) -> (r: Option<&JsonValue>)
        ensures
            r matches Some(v) ==> json_get(self.model(), key@) == Some(v.model()),
            r is None ==> json_get(self.model(), key@) is None,
    {
        match self {
            JsonValue::Object(ms) => {
                proof {
                    lemma_object_model(*ms);
                }
                match find_member(ms, key) {
                    Some(i) => Some(&ms[i].value),
                    None => None,
                }
            },
            _ => None,
        }
    }
}

/// Index of the first member whose key is `key`.
pub fn find_member(ms: &Vec<Member>, key: &[char]) -> (r: Option<usize>)
    ensures
        r matches Some(i) ==> first_index(members_model(ms@), key@) == Some(i as int) && i < ms.len(),
        r is None ==> first_index(members_model(ms@), key@) is None,
{
    let ghost mm = members_model(ms@);
    let mut i: usize = 0;
    while i < ms.len()
        invariant
            i <= ms.len(),
            mm == members_model(ms@),
            forall|j: int| 0 <= j < i ==> mm[j].0 != key@,
        decreases ms.len() - i,
    {
        let k = chars_of(ms[i].key.as_str());
        if chars_eq(&k, key) {
            proof {
                lemma_first_index_is(mm, key@, i as int);
            }
            return Some(i);
        }
        i = i + 1;
    }
    proof {
        lemma_first_index_bounds(mm, key@);
        if first_index(mm, key@) is Some {
            let j = first_index(mm, key@)->0;
            assert(mm[j].0 == key@);
        }
    }
    None
}


/// The members of `j` when it is an object, and no member otherwise.
pub open spec fn members_of(j: Json) -> Seq<(Seq<char>, Json)> {
    match j {
        Json::Object(ms) => ms,
        _ => seq![],
    }
}

/// `j` with key `k` set to `v`; a value that is not an object is first
/// treated as the empty object.
pub open spec fn json_set(j: Json, k: Seq<char>, v: Json) -> Json {
    Json::Object(obj_set(members_of(j), k, v))
}

/// The text under key `k` of `j`, when there is one and it is a string.
pub open spec fn get_str(j: Json, k: Seq<char>) -> Option<Seq<char>> {
    match json_get(j, k) {
        Some(Json::Str(s)) => Some(s),
        _ => None,
    }
}

/// The items under key `k` of `j`, when there is one and it is an array.
pub open spec fn get_arr(j: Json, k: Seq<char>) -> Option<Seq<Json>> {
    match json_get(j, k) {
        Some(Json::Array(a)) => Some(a),
        _ => None,
    }
}

pub proof fn lemma_obj_set_same(ms: Seq<(Seq<char>, Json)>, k: Seq<char>, v: Json)
    ensures
        obj_get(obj_set(ms, k, v), k) == Some(v),
{
    lemma_first_index_bounds(ms, k);
    match first_index(ms, k) {
        Some(i) => {
            lemma_first_index_is(ms.update(i, (k, v)), k, i);
        },
        None => {
            lemma_first_index_is(ms.push((k, v)), k, ms.len() as int);
        },
    }
}

pub proof fn lemma_obj_set_other(ms: Seq<(Seq<char>, Json)>, k: Seq<char>, k2: Seq<char>, v: Json)
    requires
        k != k2,
    ensures
        obj_get(obj_set(ms, k, v), k2) == obj_get(ms, k2),
{
    lemma_first_index_bounds(ms, k);
    lemma_first_index_bounds(ms, k2);
    let ms2 = obj_set(ms, k, v);
    lemma_first_index_bounds(ms2, k2);
    match first_index(ms, k2) {
        Some(j) => {
            lemma_first_index_is(ms2, k2, j);
        },
        None => {
            assert forall|j: int| 0 <= j < ms2.len() implies ms2[j].0 != k2 by {}
            match first_index(ms2, k2) {
                Some(j) => {},
                None => {},
            }
        },
    }
}

pub proof fn lemma_json_set_get(j: Json, k: Seq<char>, k2: Seq<char>, v: Json)
    ensures
        json_get(json_set(j, k, v), k2) == if k == k2 { Some(v) } else { json_get(j, k2) },
{
    if k == k2 {
        lemma_obj_set_same(members_of(j), k, v);
    } else {
        lemma_obj_set_other(members_of(j), k, k2, v);
        match j {
            Json::Object(_) => {},
            _ => {
                assert(first_index(Seq::<(Seq<char>, Json)>::empty(), k2) is None);
            },
        }
    }
}

/// Whether two strings hold the same characters.
pub fn str_eq(a: &str, b: &str) -> (r: bool)
    ensures
        r == (a@ == b@),
{
    let x = chars_of(a);
    let y = chars_of(b);
    chars_eq(&x, &y)
}

impl JsonValue {
    pub fn is_object(&self) -> (r: bool)
        ensures
            r == (self.model() is Object),
    {
        match self {
            JsonValue::Object(_) => true,
            _ => false,
        }
    }

    /// Lookup of a key given as a string slice.
    pub fn get_key(&self, key: &str) -> (r: Option<&JsonValue>)
        ensures
            r matches Some(v) ==> json_get(self.model(), key@) == Some(v.model()),
            r is None ==> json_get(self.model(), key@) is None,
    {
        let k = chars_of(key);
        self.get(&k)
    }

    /// The string under `key`, when present and a string.
    pub fn get_str(&self, key: &str) -> (r: Option<String>)
        ensures
            r matches Some(t) ==> get_str(self.model(), key@) == Some(t@),
            r is None ==> get_str(self.model(), key@) is None,
    {
        match self.get_key(key) {
            Some(JsonValue::Str(t)) => Some(t.clone()),
            _ => None,
        }
    }

    /// A copy of the items under `key`, when present and an array.
    pub fn get_array(&self, key: &str) -> (r: Option<Vec<JsonValue>>)
        ensures
            r matches Some(a) ==> get_arr(self.model(), key@) == Some(a@.map_values(|v: JsonValue| v.model())),
            r is None ==> get_arr(self.model(), key@) is None,
    {
        match self.get_key(key) {
            Some(v) => {
                let d = v.duplicate();
                match d {
                    JsonValue::Array(items) => {
                        proof {
                            lemma_array_model(items);
                        }
                        Some(items)
                    },
                    _ => None,
                }
            },
            None => None,
        }
    }

    /// Sets `key` to `v`: the first member with that key is replaced,
    /// otherwise a member is appended. A value that is not an object is
    /// first replaced by the empty object.
    pub fn set_key(&mut self, key: &str, v: JsonValue)
        ensures
            final(self).model() == json_set(old(self).model(), key@, v.model()),
    {
        let mut cur = JsonValue::Null;
        std::mem::swap(&mut cur, self);
        let mut ms: Vec<Member> = match cur {
            JsonValue::Object(ms) => ms,
            _ => Vec::new(),
        };
        proof {
            lemma_object_model(ms);
            assert(members_model(ms@) == members_of(old(self).model())) by {
                if !(old(self).model() is Object) {
                    assert(members_model(ms@) =~= Seq::<(Seq<char>, Json)>::empty());
                }
            }
        }
        let k = chars_of(key);
        let ghost old_ms = members_model(ms@);
        let ghost vm = v.model();
        match find_member(&ms, &k) {
            Some(i) => {
                ms.set(i, Member { key: key.to_owned(), value: v });
                proof {
                    assert(members_model(ms@) =~= old_ms.update(i as int, (key@, vm)));
                }
            },
            None => {
                ms.push(Member { key: key.to_owned(), value: v });
                proof {
                    assert(members_model(ms@) =~= old_ms.push((key@, vm)));
                }
            },
        }
        proof {
            lemma_object_model(ms);
        }
        *self = JsonValue::Object(ms);
    }
}

/// Model of an array value built from a vector.
pub open spec fn array_model(v: Seq<JsonValue>) -> Seq<Json> {
    v.map_values(|x: JsonValue| x.model())
}

pub proof fn lemma_obj_get_cons(x: (Seq<char>, Json), rest: Seq<(Seq<char>, Json)>, k: Seq<char>)
    ensures
        obj_get(seq![x] + rest, k) == if x.0 == k { Some(x.1) } else { obj_get(rest, k) },
{
    let ms = seq![x] + rest;
    assert(ms.drop_first() =~= rest);
    assert(ms[0] == x);
    if x.0 != k {
        lemma_first_index_bounds(rest, k);
        match first_index(rest, k) {
            Some(i) => {
                assert(ms[i + 1] == rest[i]);
            },
            None => {},
        }
    }
}

pub proof fn lemma_obj_remove_other(ms: Seq<(Seq<char>, Json)>, k: Seq<char>, k2: Seq<char>)
    requires
        k != k2,
    ensures
        obj_get(obj_remove(ms, k), k2) == obj_get(ms, k2),
    decreases ms.len(),
{
    let p = key_is_not(k);
    if ms.len() == 0 {
        assert(ms.filter(p) =~= ms) by {
            reveal(Seq::filter);
        }
    } else {
        let x = ms[0];
        let rest = ms.drop_first();
        assert(ms =~= seq![x] + rest);
        rest.lemma_filter_prepend(x, p);
        assert(obj_remove(ms, k) == ms.filter(p));
        assert(obj_remove(rest, k) == rest.filter(p));
        lemma_obj_remove_other(rest, k, k2);
        lemma_obj_get_cons(x, rest, k2);
        if p(x) {
            lemma_obj_get_cons(x, obj_remove(rest, k), k2);
            assert(obj_remove(ms, k) == seq![x] + obj_remove(rest, k));
        } else {
            assert(Seq::<(Seq<char>, Json)>::empty() + rest.filter(p) =~= rest.filter(p));
            assert(obj_remove(ms, k) == obj_remove(rest, k));
        }
    }
}

pub proof fn lemma_obj_push_other(ms: Seq<(Seq<char>, Json)>, x: (Seq<char>, Json), k2: Seq<char>)
    requires
        x.0 != k2,
    ensures
        obj_get(ms.push(x), k2) == obj_get(ms, k2),
{
    lemma_first_index_bounds(ms, k2);
    lemma_first_index_bounds(ms.push(x), k2);
    match first_index(ms, k2) {
        Some(i) => {
            lemma_first_index_is(ms.push(x), k2, i);
        },
        None => {
            match first_index(ms.push(x), k2) {
                Some(j) => {
                    assert(ms.push(x)[j].0 == k2);
                },
                None => {},
            }
        },
    }
}

#[verifier::external_type_specification]
#[verifier::external_body]
pub struct ExSerdeJsonValue(serde_json::Value);

/// What `serde_json::from_str::<serde_json::Value>` reads from a text: the
/// document, members in the order the parsed map yields them, or none
/// when the text is not JSON.
pub uninterp spec fn json_parse(text: Seq<char>) -> Option<Json>;

/// Converts a parsed `serde_json::Value` into a `JsonValue`, one for one:
/// numbers keep their written form, object members the map's order. It is
/// the conversion step of `parse_json` and is called nowhere else.
#[verifier::external_body]
fn json_from_serde(v: &serde_json::Value) -> JsonValue {
    match v {
        serde_json::Value::Null => JsonValue::Null,
        serde_json::Value::Bool(b) => JsonValue::Bool(*b),
        serde_json::Value::Number(n) => JsonValue::Number(n.to_string()),
        serde_json::Value::String(t) => JsonValue::Str(t.clone()),
        serde_json::Value::Array(a) => JsonValue::Array(a.iter().map(json_from_serde).collect()),
        serde_json::Value::Object(m) => JsonValue::Object(
            m.iter().map(|(k, x)| Member { key: k.clone(), value: json_from_serde(x) }).collect(),
        ),
    }
}

/// The text of the error `serde_json::from_str::<serde_json::Value>` gives
/// for a text that is not JSON.
pub uninterp spec fn json_parse_error(text: Seq<char>) -> Seq<char>;

/// Parses a JSON text with `serde_json::from_str`; the document is named
/// by `json_parse`, the error's text by `json_parse_error`.
#[verifier::external_body]
pub(crate) fn parse_json(text: &str) -> (r: Result<JsonValue, String>)
    ensures
        match json_parse(text@) {
            Some(j) => r matches Ok(v) && v.model() == j,
            None => r matches Err(e) && e@ == json_parse_error(text@),
        },
{
    match serde_json::from_str::<serde_json::Value>(text) {
        Ok(v) => Ok(json_from_serde(&v)),
        Err(e) => Err(e.to_string()),
    }
}


/// Converts a `JsonValue` into a `serde_json::Value`, one for one: a number
/// is read back from its written form (`null` when that is not a number),
/// members are inserted in order (a repeated key keeps its last value). It
/// is the conversion step of `compact_json` and `pretty_json` and is called
/// nowhere else.
#[verifier::external_body]
fn json_to_serde(v: &JsonValue) -> serde_json::Value {
    match v {
        JsonValue::Null => serde_json::Value::Null,
        JsonValue::Bool(b) => serde_json::Value::Bool(*b),
        JsonValue::Number(n) => serde_json::from_str::<serde_json::Number>(n).map(serde_json::Value::Number).unwrap_or(serde_json::Value::Null),
        JsonValue::Str(t) => serde_json::Value::String(t.clone()),
        JsonValue::Array(a) => serde_json::Value::Array(a.iter().map(json_to_serde).collect()),
        JsonValue::Object(ms) => serde_json::Value::Object(ms.iter().map(|m| (m.key.clone(), json_to_serde(&m.value))).collect()),
    }
}

/// What `serde_json::to_string` writes for a document (its compact form).
pub uninterp spec fn json_compact_text(j: Json) -> Seq<char>;

/// What `serde_json::to_string_pretty` writes for a document (indented by
/// two spaces).
pub uninterp spec fn json_pretty_text(j: Json) -> Seq<char>;

/// Writes a document in compact form with `serde_json::to_string`; the text
/// is named by `json_compact_text`.
#[verifier::external_body]
pub(crate) fn compact_json(v: &JsonValue) -> (r: String)
    ensures
        r@ == json_compact_text(v.model()),
{
    serde_json::to_string(&json_to_serde(v)).unwrap_or_default()
}

/// Writes a document indented with `serde_json::to_string_pretty`; the text
/// is named by `json_pretty_text`.
#[verifier::external_body]
pub(crate) fn pretty_json(v: &JsonValue) -> (r: String)
    ensures
        r@ == json_pretty_text(v.model()),
{
    serde_json::to_string_pretty(&json_to_serde(v)).unwrap_or_default()
}

} // verus!
