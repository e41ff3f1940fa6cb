//! JSON documents: a mathematical model of them, and the few `serde_json` operations with which
//! the library builds and prints them.
use serde_json::Value;
use vstd::prelude::*;

verus! {

/// What a JSON document says.
pub enum Json {
    Null,
    Bool(bool),
    /// A number written without a fraction or an exponent.
    Integer(int),
    /// Any other number, by the bits of the double that holds it.
    Float(u64),
    Text(Seq<char>),
    Array(Seq<Json>),
    /// The members of an object. Their order says nothing.
    Object(Map<Seq<char>, Json>),
}

impl Json {
    /// The member of an object under `key`; `None` for any other document, and where the object
    /// has no such member.
    pub open spec fn member(self, key: Seq<char>) -> Option<Json> {
        match self {
            Json::Object(members) => if members.contains_key(key) {
                Some(members[key])
            } else {
                None
            },
            _ => None,
        }
    }

    /// The document with one member set under `key`, when it is an object.
    pub open spec fn with_member(self, key: Seq<char>, value: Json) -> Json {
        match self {
            Json::Object(members) => Json::Object(members.insert(key, value)),
            other => other,
        }
    }

    /// The object without members.
    pub open spec fn empty_object() -> Json {
        Json::Object(Map::empty())
    }

    /// The object whose only member is `value` under `key`.
    pub open spec fn single(key: Seq<char>, value: Json) -> Json {
        Json::empty_object().with_member(key, value)
    }
}

/// `serde_json::Value`, opaque; what it holds is named [`document`].
#[verifier::external_type_specification]
#[verifier::external_body]
pub struct ExValue(serde_json::Value);

/// `serde_json::Map`, opaque; what it holds is named [`members`].
#[verifier::external_type_specification]
#[verifier::external_body]
#[verifier::reject_recursive_types(K)]
#[verifier::reject_recursive_types(V)]
pub struct ExMap<K, V>(serde_json::Map<K, V>);

/// The document that a `serde_json::Value` holds.
pub uninterp spec fn document(value: Value) -> Json;

/// The members that a `serde_json::Map` holds.
pub uninterp spec fn members(map: serde_json::Map<String, Value>) -> Map<Seq<char>, Json>;

/// The text in which `serde_json` prints a document: compact, with the members of each object in
/// the order of their keys (`serde_json` without its `preserve_order` feature).
pub uninterp spec fn compact_text(json: Json) -> Seq<char>;

/// `Value::from` on a `bool`: the document is that boolean.
#[verifier::external_body]
pub(crate) fn boolean(b: bool) -> (value: Value)
    ensures
        document(value) == Json::Bool(b),
{
    Value::from(b)
}

/// `Value::from` on a `u64`: the document is that integer.
#[verifier::external_body]
pub(crate) fn integer(n: u64) -> (value: Value)
    ensures
        document(value) == Json::Integer(n as int),
{
    Value::from(n)
}

/// `Value::from` on a `&str`: the document is a copy of that text.
#[verifier::external_body]
pub(crate) fn text(s: &str) -> (value: Value)
    ensures
        document(value) == Json::Text(s@),
{
    Value::from(s)
}

/// `Value::from` on an `Option<String>`: the text where there is one, else null.
#[verifier::external_body]
pub(crate) fn optional_text(s: Option<String>) -> (value: Value)
    ensures
        document(value) == (match s {
            Some(s) => Json::Text(s@),
            None => Json::Null,
        }),
{
    Value::from(s)
}

/// `Value::from` on a `Vec<Value>`: the array of those documents, in their order.
#[verifier::external_body]
pub(crate) fn array(items: Vec<Value>) -> (value: Value)
    ensures
        document(value) == Json::Array(items@.map_values(|item: Value| document(item))),
{
    Value::from(items)
}

/// `Value::from` on a `serde_json::Map`: the object with those members.
#[verifier::external_body]
pub(crate) fn object(map: serde_json::Map<String, Value>) -> (value: Value)
    ensures
        document(value) == Json::Object(members(map)),
{
    Value::from(map)
}

/// `serde_json::Map::new`: no members.
#[verifier::external_body]
pub(crate) fn new_map() -> (map: serde_json::Map<String, Value>)
    ensures
        Json::Object(members(map)) == Json::empty_object(),
{
    serde_json::Map::new()
}

/// `serde_json::Map::insert`: the member under `key` is now `value`, the others stay, and the
/// value that stood under `key` comes back.
#[verifier::external_body]
pub(crate) fn insert(
    map: &mut serde_json::Map<String, Value>,
    key: String,
    value: Value,
) -> (previous: Option<Value>)
    ensures
        members(*final(map)) == members(*old(map)).insert(key@, document(value)),
        match previous {
            Some(previous) => members(*old(map)).contains_key(key@)
                && document(previous) == members(*old(map))[key@],
            None => !members(*old(map)).contains_key(key@),
        },
{
    map.insert(key, value)
}

/// `Value::clone`: a copy holds the same document.
pub assume_specification[ <serde_json::Value as Clone>::clone ](value: &serde_json::Value) -> (copied:
    serde_json::Value)
    ensures
        document(copied) == document(*value),
;

/// `Value::to_string`: the compact text, which the document alone determines.
#[verifier::external_body]
pub(crate) fn print(value: &Value) -> (printed: String)
    ensures
        printed@ == compact_text(document(*value)),
{
    value.to_string()
}

/// Sets one member of an object under construction.
pub(crate) fn set(map: &mut serde_json::Map<String, Value>, key: &str, value: Value)
    ensures
        members(*final(map)) == members(*old(map)).insert(key@, document(value)),
{
    let _ = insert(map, key.to_owned(), value);
}

/// The object with one member.
pub(crate) fn single(key: &str, value: Value) -> (wrapped: Value)
    ensures
        document(wrapped) == Json::single(key@, document(value)),
{
    let mut map = new_map();
    set(&mut map, key, value);
    object(map)
}

/// The array with one item.
pub(crate) fn array_of_one(item: Value) -> (wrapped: Value)
    ensures
        document(wrapped) == Json::Array(seq![document(item)]),
{
    let ghost only = document(item);
    let mut items: Vec<Value> = Vec::new();
    items.push(item);
    assert(items@.map_values(|item: Value| document(item)) =~= seq![only]);
    array(items)
}

/// The members of an object are those of its map, each under its key, and nothing but an object
/// has any.
pub proof fn law_members_are_those_of_the_map(map: Map<Seq<char>, Json>, other: Json, key: Seq<char>)
    ensures
        map.contains_key(key) ==> Json::Object(map).member(key) == Some(map[key]),
        !map.contains_key(key) ==> Json::Object(map).member(key) is None,
        !(other is Object) ==> other.member(key) is None,
        Json::empty_object().member(key) is None,
        Json::empty_object() is Object,
{
}

/// A member that was set is read back, the other members stay, and what was an object is one.
pub proof fn law_set_member_is_read_back(
    map: Map<Seq<char>, Json>,
    key: Seq<char>,
    value: Json,
    other: Seq<char>,
)
    ensures
        Json::Object(map).with_member(key, value) is Object,
        Json::Object(map).with_member(key, value).member(key) == Some(value),
        other != key ==> Json::Object(map).with_member(key, value).member(other) == Json::Object(
            map,
        ).member(other),
        Json::single(key, value) is Object,
        Json::single(key, value).member(key) == Some(value),
        other != key ==> Json::single(key, value).member(other) is None,
{
}

/// Two objects with the same members are the same document.
pub proof fn law_objects_are_their_members(one: Json, other: Json)
    requires
        one is Object,
        other is Object,
        forall|key: Seq<char>| one.member(key) == #[trigger] other.member(key),
    ensures
        one == other,
{
    let first = one->Object_0;
    let second = other->Object_0;
    assert forall|key: Seq<char>| first.contains_key(key) == #[trigger] second.contains_key(
        key,
    ) && (first.contains_key(key) ==> first[key] == second[key]) by {
        assert(one.member(key) == other.member(key));
    }
    assert(first =~= second);
}

} // verus!
