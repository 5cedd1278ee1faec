//! A plain model of a JSON document: what the loosely typed parts of a mod
//! descriptor and of a catalog answer are read from.

use vstd::prelude::*;
use crate::text::str_eq;

verus! {

/// A JSON value. A number keeps its literal text; the members of an object
/// keep the order in which they were handed over.
#[derive(Debug)]
pub enum Json {
    Null,
    Bool(bool),
    Number(String),
    Text(String),
    Array(Vec<Json>),
    Object(Vec<(String, Json)>),
}

/// The document that a [`Json`] stands for.
pub enum JsonValue {
    Null,
    Bool(bool),
    Number(Seq<char>),
    Text(Seq<char>),
    Array(Seq<JsonValue>),
    Object(Seq<(Seq<char>, JsonValue)>),
}

/// The document that `value` stands for.
pub open spec fn json_value(value: Json) -> JsonValue
    decreases value,
{
    match value {
        Json::Null => JsonValue::Null,
        Json::Bool(b) => JsonValue::Bool(b),
        Json::Number(n) => JsonValue::Number(n@),
        Json::Text(s) => JsonValue::Text(s@),
        Json::Array(items) => JsonValue::Array(
            Seq::new(
                items@.len(),
                |i: int|
                    if 0 <= i < items@.len() {
                        json_value(items@[i])
                    } else {
                        JsonValue::Null
                    },
            ),
        ),
        Json::Object(members) => JsonValue::Object(
            Seq::new(
                members@.len(),
                |i: int|
                    if 0 <= i < members@.len() {
                        (members@[i].0@, json_value(members@[i].1))
                    } else {
                        (Seq::<char>::empty(), JsonValue::Null)
                    },
            ),
        ),
    }
}

impl DeepView for Json {
    type V = JsonValue;

    open spec fn deep_view(&self) -> JsonValue {
        json_value(*self)
    }
}

/// The value of the first member named `key`, if there is one.
pub open spec fn member(members: Seq<(Seq<char>, JsonValue)>, key: Seq<char>) -> Option<JsonValue>
    decreases members.len(),
{
    if members.len() == 0 {
        None
    } else if members[0].0 == key {
        Some(members[0].1)
    } else {
        member(members.skip(1), key)
    }
}

/// The characters of a JSON string; nothing for any other value.
pub open spec fn text_of(value: JsonValue) -> Option<Seq<char>> {
    match value {
        JsonValue::Text(s) => Some(s),
        _ => None,
    }
}

/// The characters of a JSON string that may be absent.
pub open spec fn optional_text(value: Option<JsonValue>) -> Option<Seq<char>> {
    match value {
        Some(v) => text_of(v),
        None => None,
    }
}

/// The member of an object named `key`; nothing for any other value.
pub open spec fn field_of(value: JsonValue, key: Seq<char>) -> Option<JsonValue> {
    match value {
        JsonValue::Object(members) => member(members, key),
        _ => None,
    }
}

/// The elements of a JSON array; nothing for any other value.
pub open spec fn items_of(value: JsonValue) -> Option<Seq<JsonValue>> {
    match value {
        JsonValue::Array(items) => Some(items),
        _ => None,
    }
}

/// The members that a vector of name and value pairs stands for.
pub open spec fn members_view(members: Seq<(String, Json)>) -> Seq<(Seq<char>, JsonValue)> {
    Seq::new(members.len(), |i: int| (members[i].0@, members[i].1.deep_view()))
}

/// The elements that a vector of values stands for.
pub open spec fn items_view(items: Seq<Json>) -> Seq<JsonValue> {
    Seq::new(items.len(), |i: int| items[i].deep_view())
}

/// An array stands for the documents of its elements.
pub proof fn lemma_array_view(items: Vec<Json>)
    ensures
        Json::Array(items).deep_view() == JsonValue::Array(items_view(items@)),
{
    assert(Json::Array(items).deep_view()->Array_0 =~= items_view(items@));
}

/// An object stands for the names and documents of its members.
pub proof fn lemma_object_view(members: Vec<(String, Json)>)
    ensures
        Json::Object(members).deep_view() == JsonValue::Object(members_view(members@)),
{
    let shown = json_value(Json::Object(members))->Object_0;
    assert forall|i: int| 0 <= i < shown.len() implies shown[i] == members_view(members@)[i] by {
        assert(shown[i].0 == members@[i].0@);
        assert(shown[i].1 == members@[i].1.deep_view());
    }
    assert(shown =~= members_view(members@));
}

/// Looks a member up by name among the members of an object.
pub fn find_member<'a>(members: &'a Vec<(String, Json)>, key: &str) -> (r: Option<&'a Json>)
    ensures
        r.deep_view() == member(members_view(members@), key@),
{
    let ghost all = members_view(members@);
    let mut i: usize = 0;
    assert(all.skip(0) =~= all);
    while i < members.len()
        invariant
            i <= members.len(),
            all == members_view(members@),
            member(all, key@) == member(all.skip(i as int), key@),
        decreases members.len() - i,
    {
        proof {
            assert(all.skip(i as int).skip(1) =~= all.skip(i + 1));
        }
        if str_eq(members[i].0.as_str(), key) {
            return Some(&members[i].1);
        }
        i += 1;
    }
    None
}

impl Json {
    /// A copy that stands for the same document.
    pub fn duplicate(&self) -> (r: Json)
        ensures
            r.deep_view() == self.deep_view(),
        decreases self,
    {
        match self {
            Json::Null => Json::Null,
            Json::Bool(b) => Json::Bool(*b),
            Json::Number(n) => Json::Number(n.clone()),
            Json::Text(s) => Json::Text(s.clone()),
            Json::Array(items) => {
                let mut out: Vec<Json> = Vec::new();
                let mut i: usize = 0;
                while i < items.len()
                    invariant
                        i <= items.len(),
                        out.len() == i,
                        *self == Json::Array(*items),
                        forall|k: int| 0 <= k < i ==> out@[k].deep_view() == items@[k].deep_view(),
                    decreases items.len() - i,
                {
                    proof {
                        vstd::std_specs::vec::axiom_vec_index_decreases(*items, i as int);
                        assert(decreases_to!(*self => self->Array_0));
                    }
                    let d = items[i].duplicate();
                    out.push(d);
                    i += 1;
                }
                proof {
                    lemma_array_view(out);
                    lemma_array_view(*items);
                    assert(items_view(out@) =~= items_view(items@));
                }
                Json::Array(out)
            },
            Json::Object(members) => {
                let mut out: Vec<(String, Json)> = Vec::new();
                let mut i: usize = 0;
                while i < members.len()
                    invariant
                        i <= members.len(),
                        out.len() == i,
                        *self == Json::Object(*members),
                        forall|k: int|
                            0 <= k < i ==> out@[k].0@ == members@[k].0@ && out@[k].1.deep_view()
                                == members@[k].1.deep_view(),
                    decreases members.len() - i,
                {
                    proof {
                        vstd::std_specs::vec::axiom_vec_index_decreases(*members, i as int);
                        assert(decreases_to!(*self => self->Object_0));
                    }
                    let d = members[i].1.duplicate();
                    out.push((members[i].0.clone(), d));
                    i += 1;
                }
                proof {
                    lemma_object_view(out);
                    lemma_object_view(*members);
                    assert(members_view(out@) =~= members_view(members@));
                }
                Json::Object(out)
            },
        }
    }

    /// The member named `key` when this value is an object that has one.
    pub fn field<'a>(&'a self, key: &str) -> (r: Option<&'a Json>)
        ensures
            r.deep_view() == field_of(self.deep_view(), key@),
    {
        match self {
            Json::Object(members) => {
                proof {
                    lemma_object_view(*members);
                }
                find_member(members, key)
            },
            _ => None,
        }
    }

    /// The string when this value is a JSON string.
    pub fn as_text<'a>(&'a self) -> (r: Option<&'a String>)
        ensures
            r.deep_view() == text_of(self.deep_view()),
    {
        match self {
            Json::Text(s) => Some(s),
            _ => None,
        }
    }

    /// The elements when this value is a JSON array.
    pub fn as_items<'a>(&'a self) -> (r: Option<&'a Vec<Json>>)
        ensures
            r.deep_view() == items_of(self.deep_view()),
    {
        match self {
            Json::Array(items) => {
                proof {
                    lemma_array_view(*items);
                    assert(items.deep_view() =~= items_view(items@));
                }
                Some(items)
            },
            _ => None,
        }
    }
}

impl Clone for Json {
    fn clone(&self) -> (r: Self)
        ensures
            r.deep_view() == self.deep_view(),
    {
        self.duplicate()
    }
}


/// The strings of a list whose elements are all strings.
pub open spec fn all_text(items: Seq<JsonValue>) -> Option<Seq<Seq<char>>>
    decreases items.len(),
{
    if items.len() == 0 {
        Some(Seq::empty())
    } else {
        match (all_text(items.drop_last()), items.last()) {
            (Some(texts), JsonValue::Text(s)) => Some(texts.push(s)),
            _ => None,
        }
    }
}

/// A list with an element that is no string is no list of strings.
pub proof fn lemma_all_text_prefix(items: Seq<JsonValue>, n: int)
    requires
        0 <= n <= items.len(),
        all_text(items.take(n)) is None,
    ensures
        all_text(items) is None,
    decreases items.len() - n,
{
    if n < items.len() {
        assert(items.take(n + 1).drop_last() =~= items.take(n));
        lemma_all_text_prefix(items, n + 1);
    } else {
        assert(items.take(n) =~= items);
    }
}

/// The strings of a list, where all its elements are strings.
pub fn read_all_text(items: &Vec<Json>) -> (r: Option<Vec<String>>)
    ensures
        r.deep_view() == all_text(items_view(items@)),
{
    let ghost all = items_view(items@);
    let mut texts: Vec<String> = Vec::new();
    let mut i: usize = 0;
    assert(texts.deep_view() =~= Seq::<Seq<char>>::empty());
    while i < items.len()
        invariant
            i <= items.len(),
            all == items_view(items@),
            all_text(all.take(i as int)) == Some(texts.deep_view()),
        decreases items.len() - i,
    {
        let ghost before = texts.deep_view();
        proof {
            assert(all.take(i + 1).drop_last() =~= all.take(i as int));
            assert(all.take(i + 1).last() == items@[i as int].deep_view());
        }
        match &items[i] {
            Json::Text(s) => {
                texts.push(s.clone());
                assert(texts.deep_view() =~= before.push(s@));
            },
            _ => {
                proof {
                    assert(all_text(all.take(i + 1)) is None);
                    lemma_all_text_prefix(all, i + 1);
                }
                return None;
            },
        }
        i += 1;
    }
    assert(all.take(items.len() as int) =~= all);
    Some(texts)
}

/// A member that may be left out or null and else holds a string: what it
/// holds, or nothing at all where it holds something else.
pub open spec fn lenient_text(doc: JsonValue, key: Seq<char>) -> Option<Option<Seq<char>>> {
    match field_of(doc, key) {
        None => Some(None),
        Some(JsonValue::Null) => Some(None),
        Some(JsonValue::Text(s)) => Some(Some(s)),
        Some(_) => None,
    }
}

/// A member that may be left out or null and else holds a list of
/// strings: what it holds, or nothing at all where it holds something
/// else.
pub open spec fn lenient_texts(doc: JsonValue, key: Seq<char>) -> Option<Option<Seq<Seq<char>>>> {
    match field_of(doc, key) {
        None => Some(None),
        Some(JsonValue::Null) => Some(None),
        Some(JsonValue::Array(items)) => match all_text(items) {
            Some(texts) => Some(Some(texts)),
            None => None,
        },
        Some(_) => None,
    }
}

/// Reads a member that may be left out or null and else holds a string.
pub fn read_lenient_text(doc: &Json, key: &str) -> (r: Option<Option<String>>)
    ensures
        r.deep_view() == lenient_text(doc.deep_view(), key@),
{
    match doc.field(key) {
        None => Some(None),
        Some(Json::Null) => Some(None),
        Some(Json::Text(s)) => Some(Some(s.clone())),
        Some(_) => None,
    }
}

/// Reads a member that may be left out or null and else holds a list of
/// strings.
pub fn read_lenient_texts(doc: &Json, key: &str) -> (r: Option<Option<Vec<String>>>)
    ensures
        r.deep_view() == lenient_texts(doc.deep_view(), key@),
{
    match doc.field(key) {
        None => Some(None),
        Some(Json::Null) => Some(None),
        Some(Json::Array(items)) => {
            proof {
                lemma_array_view(*items);
            }
            match read_all_text(items) {
                Some(texts) => Some(Some(texts)),
                None => None,
            }
        },
        Some(_) => None,
    }
}

/// `serde_json::Value`, a document as `serde_json` holds it. Nothing is
/// known of its inside but what [`value_document`] names.
#[verifier::external_type_specification]
#[verifier::external_body]
pub struct ExValue(serde_json::Value);

/// `serde_json::Error`, the failure to read a text. Nothing is known of
/// its inside.
#[verifier::external_type_specification]
#[verifier::external_body]
pub struct ExJsonError(serde_json::Error);

/// The document that `serde_json` reads out of `text`; nothing where the
/// text is not JSON.
pub uninterp spec fn parsed_document(text: Seq<char>) -> Option<JsonValue>;

/// The document that a `serde_json::Value` holds: its numbers by their
/// literal text, the members of its objects in the order in which it walks
/// them.
pub uninterp spec fn value_document(value: serde_json::Value) -> JsonValue;

/// Calls `serde_json::from_str` for a `serde_json::Value`. The contract
/// names the document read and says that the text is refused exactly when
/// there is none.
#[verifier::external_body]
fn parse_value(text: &str) -> (r: Result<serde_json::Value, serde_json::Error>)
    ensures
        match r {
            Ok(value) => parsed_document(text@) == Some(value_document(value)),
            Err(_) => parsed_document(text@) is None,
        },
{
    serde_json::from_str(text)
}

/// Turns a `serde_json::Value` into a [`Json`], variant by variant.
#[verifier::external_body]
fn json_of_value(value: &serde_json::Value) -> (r: Json)
    ensures
        r.deep_view() == value_document(*value),
{
    match value {
        serde_json::Value::Null => Json::Null,
        serde_json::Value::Bool(b) => Json::Bool(*b),
        serde_json::Value::Number(n) => Json::Number(n.to_string()),
        serde_json::Value::String(s) => Json::Text(s.clone()),
        serde_json::Value::Array(items) => Json::Array(items.iter().map(json_of_value).collect()),
        serde_json::Value::Object(members) => Json::Object(
            members.iter().map(|(k, v)| (k.clone(), json_of_value(v))).collect(),
        ),
    }
}

/// Reads a JSON text.
pub fn parse_json(text: &str) -> (r: Option<Json>)
    ensures
        r.deep_view() == parsed_document(text@),
{
    match parse_value(text) {
        Ok(value) => Some(json_of_value(&value)),
        Err(_) => None,
    }
}

} // verus!
