//! JSON documents as trees, and the interface to `serde_json` that reads them.

use crate::error::{Failure, ParseError, ResolveError};
use vstd::prelude::*;

verus! {

/// The shape of a JSON value, as far as this library reads it.
///
/// Numbers, booleans and `null` carry nothing that the resolver looks at, so
/// they share one variant.
pub enum JsonValue {
    Text(Seq<char>),
    List(Seq<JsonValue>),
    Record(Seq<(Seq<char>, JsonValue)>),
    Scalar,
}

/// An executable JSON tree. Its view is a [`JsonValue`].
#[derive(Debug, PartialEq, Eq)]
pub enum Json {
    Text(String),
    List(Vec<Json>),
    Record(Vec<(String, Json)>),
    Scalar,
}

impl View for Json {
    type V = JsonValue;

    open spec fn view(&self) -> JsonValue
        decreases self,
    {
        match self {
            Json::Text(s) => JsonValue::Text(s@),
            Json::List(items) => JsonValue::List(
                Seq::new(
                    items@.len(),
                    |i: int|
                        if 0 <= i < items@.len() {
                            items@[i].view()
                        } else {
                            JsonValue::Scalar
                        },
                ),
            ),
            Json::Record(members) => JsonValue::Record(
                Seq::new(
                    members@.len(),
                    |i: int|
                        (
                            members@[i].0@,
                            if 0 <= i < members@.len() {
                                members@[i].1.view()
                            } else {
                                JsonValue::Scalar
                            },
                        ),
                ),
            ),
            Json::Scalar => JsonValue::Scalar,
        }
    }
}

/// `serde_json::Value`, taken as opaque: what it holds is read through
/// [`value_tree`] alone.
#[verifier::external_type_specification]
#[verifier::external_body]
pub struct ExValue(serde_json::Value);

/// `serde_json::Map`, taken as opaque: what it holds is read through
/// [`map_members`] alone.
#[verifier::external_type_specification]
#[verifier::external_body]
#[verifier::reject_recursive_types(K)]
#[verifier::reject_recursive_types(V)]
pub struct ExMap<K, V>(serde_json::Map<K, V>);

/// `serde_json::Error`, taken as opaque: only its message is read.
#[verifier::external_type_specification]
#[verifier::external_body]
pub struct ExJsonError(serde_json::Error);

/// What `serde_json::from_str` makes of a text: the tree of the value that it
/// returns, or the message of the error that it returns.
pub uninterp spec fn json_document(text: Seq<char>) -> Result<JsonValue, Seq<char>>;

/// The tree that a `serde_json::Value` holds: its string, its items or its
/// members where it is a string, an array or an object, and `Scalar` where it
/// is anything else.
pub uninterp spec fn value_tree(v: serde_json::Value) -> JsonValue;

/// The members that a `serde_json::Map` holds, each with its key and the tree
/// of its value, in the order in which the map yields them.
pub uninterp spec fn map_members(m: serde_json::Map<String, serde_json::Value>) -> Seq<
    (Seq<char>, JsonValue),
>;

/// The message that a `serde_json::Error` displays.
pub uninterp spec fn error_text(e: serde_json::Error) -> Seq<char>;

/// Calls `serde_json::from_str` for a `Value`. Nothing is claimed of the
/// result but that it is what [`json_document`] names: the value's tree, or
/// the error's message.
#[verifier::external_body]
fn parse_value(text: &str) -> (r: Result<serde_json::Value, serde_json::Error>)
    ensures
        match r {
            Ok(v) => json_document(text@) == Ok::<JsonValue, Seq<char>>(value_tree(v)),
            Err(e) => json_document(text@) == Err::<JsonValue, Seq<char>>(error_text(e)),
        },
{
    serde_json::from_str::<serde_json::Value>(text)
}

/// Calls `Value::as_str`, which returns the string of a string value and
/// `None` for every other value.
#[verifier::external_body]
fn value_text(v: &serde_json::Value) -> (r: Option<&str>)
    ensures
        match r {
            Some(s) => value_tree(*v) == JsonValue::Text(s@),
            None => !(value_tree(*v) is Text),
        },
{
    v.as_str()
}

/// Calls `Value::as_array`, which returns the items of an array and `None`
/// for every other value.
#[verifier::external_body]
fn value_items(v: &serde_json::Value) -> (r: Option<&Vec<serde_json::Value>>)
    ensures
        match r {
            Some(items) => value_tree(*v) == JsonValue::List(
                items@.map_values(|x: serde_json::Value| value_tree(x)),
            ),
            None => !(value_tree(*v) is List),
        },
{
    v.as_array()
}

/// Calls `Value::as_object`, which returns the map of an object and `None`
/// for every other value.
#[verifier::external_body]
fn value_object(v: &serde_json::Value) -> (r: Option<
    &serde_json::Map<String, serde_json::Value>,
>)
    ensures
        match r {
            Some(m) => value_tree(*v) == JsonValue::Record(map_members(*m)),
            None => !(value_tree(*v) is Record),
        },
{
    v.as_object()
}

/// Calls `Map::iter` and collects what it yields: every member, once, in the
/// map's order.
#[verifier::external_body]
fn object_members(m: &serde_json::Map<String, serde_json::Value>) -> (r: Vec<
    (&String, &serde_json::Value),
>)
    ensures
        r@.map_values(|p: (&String, &serde_json::Value)| (p.0@, value_tree(*p.1))) == map_members(
            *m,
        ),
{
    m.iter().collect()
}

/// Formats a `serde_json::Error` with its `Display`: the message, with the
/// line and the column where it has them.
#[verifier::external_body]
fn error_message(e: &serde_json::Error) -> (r: String)
    ensures
        r@ == error_text(*e),
{
    e.to_string()
}

/// Copies a `serde_json::Value` into a [`Json`].
fn to_json(v: &serde_json::Value) -> (j: Json)
    ensures
        j@ == value_tree(*v),
    decreases value_tree(*v),
{
    if let Some(s) = value_text(v) {
        Json::Text(String::from_str(s))
    } else if let Some(items) = value_items(v) {
        let mut out: Vec<Json> = Vec::new();
        let ghost trees = items@.map_values(|x: serde_json::Value| value_tree(x));
        let mut i: usize = 0;
        while i < items.len()
            invariant
                i <= items.len(),
                value_tree(*v) == JsonValue::List(trees),
                trees == items@.map_values(|x: serde_json::Value| value_tree(x)),
                out@.len() == i,
                forall|k: int| 0 <= k < i ==> (#[trigger] out@[k])@ == trees[k],
            decreases items.len() - i,
        {
            proof {
                assert(trees[i as int] == value_tree(items@[i as int]));
                assert(decreases_to!(value_tree(*v) => value_tree(*v)->List_0[i as int]));
            }
            let j = to_json(&items[i]);
            out.push(j);
            i += 1;
        }
        let r = Json::List(out);
        assert(r@ == value_tree(*v)) by {
            assert(r@->List_0 =~= trees);
        }
        r
    } else if let Some(map) = value_object(v) {
        let ms = object_members(map);
        let mut out: Vec<(String, Json)> = Vec::new();
        let ghost trees = ms@.map_values(|m: (&String, &serde_json::Value)| (m.0@, value_tree(*m.1)));
        let mut i: usize = 0;
        while i < ms.len()
            invariant
                i <= ms.len(),
                value_tree(*v) == JsonValue::Record(trees),
                trees == ms@.map_values(|m: (&String, &serde_json::Value)| (m.0@, value_tree(*m.1))),
                out@.len() == i,
                forall|k: int| 0 <= k < i ==> (#[trigger] out@[k]).0@ == trees[k].0
                    && out@[k].1@ == trees[k].1,
            decreases ms.len() - i,
        {
            proof {
                assert(trees[i as int] == (ms@[i as int].0@, value_tree(*ms@[i as int].1)));
                assert(decreases_to!(value_tree(*v) => value_tree(*v)->Record_0[i as int].1));
            }
            let value = to_json(ms[i].1);
            out.push((ms[i].0.clone(), value));
            i += 1;
        }
        let r = Json::Record(out);
        assert(r@ == value_tree(*v)) by {
            assert(r@->Record_0 =~= trees);
        }
        r
    } else {
        Json::Scalar
    }
}

/// The value that the first of `members` from index `from` on with the key
/// `key` holds.
pub open spec fn member_from(
    members: Seq<(Seq<char>, JsonValue)>,
    key: Seq<char>,
    from: int,
) -> Option<JsonValue>
    decreases members.len() - from,
{
    if from < 0 || from >= members.len() {
        None
    } else if members[from].0 == key {
        Some(members[from].1)
    } else {
        member_from(members, key, from + 1)
    }
}

/// The value under `key` in `tree`, where `tree` is an object that has the
/// key. Of several members with one key the first counts.
pub open spec fn member_of(tree: JsonValue, key: Seq<char>) -> Option<JsonValue> {
    match tree {
        JsonValue::Record(members) => member_from(members, key, 0),
        _ => None,
    }
}

impl Json {
    /// The view of an object holds the views of its members, in order.
    pub proof fn lemma_view_record(self)
        requires
            self is Record,
        ensures
            self@ is Record,
            self@->Record_0.len() == (self->Record_0)@.len(),
            forall|k: int|
                0 <= k < (self->Record_0)@.len() ==> #[trigger] self@->Record_0[k] == (
                    (self->Record_0)@[k].0@,
                    (self->Record_0)@[k].1@,
                ),
    {
    }

    /// The view of an array holds the views of its items, in order.
    pub proof fn lemma_view_list(self)
        requires
            self is List,
        ensures
            self@ is List,
            self@->List_0.len() == (self->List_0)@.len(),
            forall|k: int|
                0 <= k < (self->List_0)@.len() ==> #[trigger] self@->List_0[k] == (
                    self->List_0)@[k]@,
    {
    }

    /// Parses `text` as one JSON document.
    ///
    /// Fails with [`ResolveError::Parse`], which holds `text` and the
    /// parser's message, exactly when the parser rejects `text`.
    pub fn parse(text: &str) -> (r: Result<Json, ResolveError>)
        ensures
            match json_document(text@) {
                Ok(tree) => r matches Ok(j) && j@ == tree,
                Err(cause) => r matches Err(e) && e@ == (Failure::Parse { content: text@, cause }),
            },
    {
        match parse_value(text) {
            Ok(v) => Ok(to_json(&v)),
            Err(e) => Err(
                ResolveError::Parse(
                    ParseError { content: String::from_str(text), cause: error_message(&e) },
                ),
            ),
        }
    }

    /// The value under `key`, where this is an object that has the key.
    pub fn member(&self, key: &str) -> (r: Option<&Json>)
        ensures
            match r {
                Some(j) => member_of(self@, key@) == Some(j@),
                None => member_of(self@, key@) is None,
            },
    {
        match self {
            Json::Record(members) => {
                let wanted = String::from_str(key);
                let mut i: usize = 0;
                proof {
                    self.lemma_view_record();
                }
                while i < members.len()
                    invariant
                        i <= members.len(),
                        wanted@ == key@,
                        self@ is Record,
                        self@->Record_0.len() == members@.len(),
                        forall|k: int|
                            0 <= k < members@.len() ==> #[trigger] self@->Record_0[k] == (
                                members@[k].0@,
                                members@[k].1@,
                            ),
                        member_of(self@, key@) == member_from(self@->Record_0, key@, i as int),
                    decreases members.len() - i,
                {
                    if members[i].0 == wanted {
                        return Some(&members[i].1);
                    }
                    i += 1;
                }
                None
            },
            _ => None,
        }
    }
}

} // verus!
