//! Reading and writing JSON documents.

use vstd::prelude::*;
use crate::text::opt_text;

verus! {

/// What a JSON document says. Numbers are not told apart.
pub enum JsonTree {
    Null,
    Bool(bool),
    Number,
    Text(Seq<char>),
    Array(Seq<JsonTree>),
    Object(Map<Seq<char>, JsonTree>),
}

/// A JSON value of `serde_json`.
#[verifier::external_type_specification]
#[verifier::external_body]
pub struct ExValue(serde_json::Value);

/// What a parsed value holds.
pub uninterp spec fn json_tree(value: serde_json::Value) -> JsonTree;

/// What `serde_json::from_str` reads in a text, where it is a JSON document.
pub uninterp spec fn json_document(text: Seq<char>) -> Option<JsonTree>;

/// What a list of values holds.
pub open spec fn json_trees(values: Seq<serde_json::Value>) -> Seq<JsonTree> {
    Seq::new(values.len(), |i: int| json_tree(values[i]))
}

/// Parses a document with `serde_json::from_str`: which texts are documents, and what
/// they say, depends on the text alone.
#[verifier::external_body]
pub(crate) fn parse_json(text: &str) -> (value: Option<serde_json::Value>)
    ensures
        match value {
            Some(v) => json_document(text@) == Some(json_tree(v)),
            None => json_document(text@) is None,
        },
{
    serde_json::from_str(text).ok()
}

/// The member of an object with the given name.
pub open spec fn json_member(tree: JsonTree, name: Seq<char>) -> Option<JsonTree> {
    match tree {
        JsonTree::Object(members) => if members.contains_key(name) {
            Some(members[name])
        } else {
            None
        },
        _ => None,
    }
}

/// Looks a member up with `serde_json::Value::get`: an object gives its member of that
/// name, anything else gives none.
#[verifier::external_body]
pub(crate) fn member<'a>(value: &'a serde_json::Value, name: &str) -> (found: Option<
    &'a serde_json::Value,
>)
    ensures
        match found {
            Some(v) => json_member(json_tree(*value), name@) == Some(json_tree(*v)),
            None => json_member(json_tree(*value), name@) is None,
        },
{
    value.get(name)
}

/// `serde_json::Value::as_str`: the text of a string, and none of anything else.
pub assume_specification[ serde_json::Value::as_str ](value: &serde_json::Value) -> (text: Option<
    &str,
>)
    ensures
        match json_tree(*value) {
            JsonTree::Text(t) => text is Some && text->0@ == t,
            _ => text is None,
        },
;

/// `serde_json::Value::as_bool`: the truth value of a boolean, and none of anything else.
pub assume_specification[ serde_json::Value::as_bool ](value: &serde_json::Value) -> (flag: Option<
    bool,
>)
    ensures
        match json_tree(*value) {
            JsonTree::Bool(b) => flag == Some(b),
            _ => flag is None,
        },
;

/// `serde_json::Value::as_array`: the elements of an array in their order, and none of
/// anything else.
pub assume_specification[ serde_json::Value::as_array ](value: &serde_json::Value) -> (list: Option<
    &Vec<serde_json::Value>,
>)
    ensures
        match json_tree(*value) {
            JsonTree::Array(elements) => list is Some && json_trees(list->0@) == elements,
            _ => list is None,
        },
;

/// The text of a string member.
pub open spec fn text_member(tree: JsonTree, name: Seq<char>) -> Option<Seq<char>> {
    match json_member(tree, name) {
        Some(JsonTree::Text(text)) => Some(text),
        _ => None,
    }
}

/// The truth value of a boolean member.
pub open spec fn flag_member(tree: JsonTree, name: Seq<char>) -> Option<bool> {
    match json_member(tree, name) {
        Some(JsonTree::Bool(flag)) => Some(flag),
        _ => None,
    }
}

/// The text of a string member.
pub(crate) fn text_at(value: &serde_json::Value, name: &str) -> (text: Option<String>)
    ensures
        opt_text(text) == text_member(json_tree(*value), name@),
{
    match member(value, name) {
        None => None,
        Some(inner) => match inner.as_str() {
            None => None,
            Some(text) => Some(text.to_owned()),
        },
    }
}

/// The truth value of a boolean member.
pub(crate) fn flag_at(value: &serde_json::Value, name: &str) -> (flag: Option<bool>)
    ensures
        flag == flag_member(json_tree(*value), name@),
{
    match member(value, name) {
        None => None,
        Some(inner) => inner.as_bool(),
    }
}

/// How deep arrays and objects may nest in a document that is read.
pub const NESTING: usize = 127;

/// A tree without numbers whose arrays and objects nest at most so deep.
pub open spec fn reads_back(tree: JsonTree, levels: nat) -> bool
    decreases levels,
{
    match tree {
        JsonTree::Array(elements) => levels > 0 && forall|i: int|
            0 <= i < elements.len() ==> reads_back(#[trigger] elements[i], (levels - 1) as nat),
        JsonTree::Object(members) => levels > 0 && forall|name: Seq<char>| #[trigger]
            members.contains_key(name) ==> reads_back(members[name], (levels - 1) as nat),
        JsonTree::Number => false,
        _ => true,
    }
}

/// An object without members: `serde_json::Map::new` in a `serde_json::Value`.
#[verifier::external_body]
pub(crate) fn empty_object() -> (object: serde_json::Value)
    ensures
        json_tree(object) == JsonTree::Object(Map::empty()),
{
    serde_json::Value::Object(serde_json::Map::new())
}

/// The value of a text, made with `From<&str>` for `serde_json::Value`: a string.
#[verifier::external_body]
pub(crate) fn text_value(text: &str) -> (value: serde_json::Value)
    ensures
        json_tree(value) == JsonTree::Text(text@),
{
    serde_json::Value::from(text)
}

/// The value of a flag, made with `From<bool>` for `serde_json::Value`: a boolean.
#[verifier::external_body]
pub(crate) fn flag_value(flag: bool) -> (value: serde_json::Value)
    ensures
        json_tree(value) == JsonTree::Bool(flag),
{
    serde_json::Value::from(flag)
}

/// The members of an object, and none of anything else.
pub open spec fn members_of(tree: JsonTree) -> Map<Seq<char>, JsonTree> {
    match tree {
        JsonTree::Object(members) => members,
        _ => Map::empty(),
    }
}

/// Sets a member with `IndexMut` of `serde_json::Value`: an object gets the member, in
/// the place of an earlier one of that name.
#[verifier::external_body]
pub(crate) fn set_member(object: &mut serde_json::Value, name: &str, value: serde_json::Value)
    requires
        json_tree(*old(object)) is Object,
    ensures
        json_tree(*final(object)) == JsonTree::Object(
            members_of(json_tree(*old(object))).insert(name@, json_tree(value)),
        ),
{
    object[name] = value;
}

/// Writes a document with `Display` of `serde_json::Value`: what `serde_json::from_str`
/// reads in it is the value, as long as it nests no deeper than a reader allows and holds
/// no number. Of numbers nothing is said: the reader refuses what it rounds to infinity.
#[verifier::external_body]
pub(crate) fn write_json(value: &serde_json::Value) -> (text: String)
    ensures
        reads_back(json_tree(*value), NESTING as nat) ==> json_document(text@) == Some(
            json_tree(*value),
        ),
{
    value.to_string()
}

/// Sets a text member.
pub(crate) fn set_text(object: &mut serde_json::Value, name: &str, text: &str)
    requires
        json_tree(*old(object)) is Object,
    ensures
        json_tree(*final(object)) == JsonTree::Object(
            members_of(json_tree(*old(object))).insert(name@, JsonTree::Text(text@)),
        ),
{
    set_member(object, name, text_value(text));
}

/// A member is found in an object under its own name, as what it is: a text only as a text, a
/// flag only as a flag. Setting one member leaves the others as they were.
pub proof fn law_members_are_found(
    members: Map<Seq<char>, JsonTree>,
    name: Seq<char>,
    other: Seq<char>,
    text: Seq<char>,
    flag: bool,
)
    requires
        name != other,
    ensures
        ({
            let said = JsonTree::Object(members.insert(name, JsonTree::Text(text)));
            &&& text_member(said, name) == Some(text)
            &&& flag_member(said, name) is None
            &&& json_member(said, other) == json_member(JsonTree::Object(members), other)
        }),
        ({
            let set = JsonTree::Object(members.insert(name, JsonTree::Bool(flag)));
            &&& flag_member(set, name) == Some(flag)
            &&& text_member(set, name) is None
            &&& json_member(set, other) == json_member(JsonTree::Object(members), other)
        }),
        json_member(JsonTree::Object(members.remove(name)), name) is None,
        json_member(JsonTree::Text(text), name) is None,
        json_member(JsonTree::Null, name) is None,
        members_of(JsonTree::Object(members)) == members,
{
}

} // verus!
