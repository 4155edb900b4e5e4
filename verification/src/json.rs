//! JSON values.
//!
//! The values themselves are those of `serde_json`, which parses, reads and builds
//! them. `JsonTree` is the mathematical picture of one, and `value_tree` names the
//! picture of a given value. The functions of this file are the only ones that
//! reach into `serde_json`, and their contracts are believed, not proved.
use vstd::prelude::*;

verus! {

/// A JSON number, as `serde_json` tells numbers apart.
pub enum JsonNumber {
    /// An integer from zero up.
    Unsigned(u64),
    /// An integer below zero.
    Negative(i64),
    /// Any other number, by the bits of its double.
    Fraction(u64),
}

/// What a JSON value holds.
pub enum JsonTree {
    Null,
    Bool(bool),
    Number(JsonNumber),
    Text(Seq<char>),
    Array(Seq<JsonTree>),
    Object(Map<Seq<char>, JsonTree>),
}

impl JsonTree {
    /// The member of an object under `key`, if there is one.
    pub open spec fn member(self, key: Seq<char>) -> Option<JsonTree> {
        match self {
            JsonTree::Object(members) => if members.contains_key(key) {
                Some(members[key])
            } else {
                None
            },
            _ => None,
        }
    }

    /// The characters of a string.
    pub open spec fn as_text(self) -> Option<Seq<char>> {
        match self {
            JsonTree::Text(text) => Some(text),
            _ => None,
        }
    }

    /// The value of a number that is an integer and fits in `i64`.
    pub open spec fn as_integer(self) -> Option<i64> {
        match self {
            JsonTree::Number(JsonNumber::Unsigned(n)) => if n <= i64::MAX {
                Some(n as i64)
            } else {
                None
            },
            JsonTree::Number(JsonNumber::Negative(n)) => Some(n),
            _ => None,
        }
    }

    /// The string under `key` of an object.
    pub open spec fn text_member(self, key: Seq<char>) -> Option<Seq<char>> {
        match self.member(key) {
            Some(value) => value.as_text(),
            None => None,
        }
    }

    /// The integer under `key` of an object.
    pub open spec fn integer_member(self, key: Seq<char>) -> Option<i64> {
        match self.member(key) {
            Some(value) => value.as_integer(),
            None => None,
        }
    }
}

/// The members of an object that is built from key and value pairs with distinct keys.
pub open spec fn members_of(pairs: Seq<(Seq<char>, JsonTree)>) -> Map<Seq<char>, JsonTree>
    decreases pairs.len(),
{
    if pairs.len() == 0 {
        Map::empty()
    } else {
        members_of(pairs.drop_last()).insert(pairs.last().0, pairs.last().1)
    }
}

/// `serde_json::Value`, a JSON value.
#[verifier::external_type_specification]
#[verifier::external_body]
pub struct ExValue(serde_json::Value);

/// What a `serde_json::Value` holds: its kind, and what a value of that kind is made
/// of. The members of an object have no order.
pub uninterp spec fn value_tree(value: serde_json::Value) -> JsonTree;

/// What `serde_json::from_str` makes of a text; `None` where it refuses the text.
pub uninterp spec fn parsed_tree(text: Seq<char>) -> Option<JsonTree>;

/// What each value of a sequence holds.
pub open spec fn trees(values: Seq<serde_json::Value>) -> Seq<JsonTree> {
    values.map_values(|value: serde_json::Value| value_tree(value))
}

/// `serde_json::from_str`: the value that the text spells, or nothing where it refuses
/// the text, as it does what is not JSON. The outcome depends on the text alone.
#[verifier::external_body]
pub(crate) fn parse_value(text: &str) -> (parsed: Option<serde_json::Value>)
    ensures
        match parsed {
            Some(value) => parsed_tree(text@) == Some(value_tree(value)),
            None => parsed_tree(text@) is None,
        },
{
    serde_json::from_str(text).ok()
}

/// `serde_json::Value::get` with a string: the member of an object under that key,
/// and nothing where the value is no object or has no such key.
#[verifier::external_body]
pub(crate) fn member_of<'a>(value: &'a serde_json::Value, key: &str) -> (found: Option<
    &'a serde_json::Value,
>)
    ensures
        match found {
            Some(inner) => value_tree(*value).member(key@) == Some(value_tree(*inner)),
            None => value_tree(*value).member(key@) is None,
        },
{
    value.get(key)
}

/// `serde_json::Value::as_str`: the characters of a string, and nothing of a value
/// of another kind.
#[verifier::external_body]
pub(crate) fn text_of(value: &serde_json::Value) -> (found: Option<&str>)
    ensures
        match found {
            Some(text) => value_tree(*value).as_text() == Some(text@),
            None => value_tree(*value).as_text() is None,
        },
{
    value.as_str()
}

/// `serde_json::Value::as_i64`: the value of an integer that fits in `i64`, and
/// nothing of any other value.
#[verifier::external_body]
pub(crate) fn integer_of(value: &serde_json::Value) -> (found: Option<i64>)
    ensures
        found == value_tree(*value).as_integer(),
{
    value.as_i64()
}

/// `serde_json::Value::clone`: a value that holds the same.
#[verifier::external_body]
pub(crate) fn copy_of(value: &serde_json::Value) -> (copy: serde_json::Value)
    ensures
        value_tree(copy) == value_tree(*value),
{
    value.clone()
}

/// `serde_json::Value::from` of a `String`: the string with those characters.
#[verifier::external_body]
pub(crate) fn build_text(text: String) -> (value: serde_json::Value)
    ensures
        value_tree(value) == JsonTree::Text(text@),
{
    serde_json::Value::from(text)
}

/// `serde_json::Value::from` of a `Vec`: the array of those items, in their order.
#[verifier::external_body]
pub(crate) fn build_array(items: Vec<serde_json::Value>) -> (value: serde_json::Value)
    ensures
        value_tree(value) == JsonTree::Array(trees(items@)),
{
    serde_json::Value::from(items)
}

/// `serde_json::Value::from_iter` of key and value pairs: the object with those
/// members. No key may stand in two pairs.
#[verifier::external_body]
pub(crate) fn build_object(pairs: Vec<(String, serde_json::Value)>) -> (value: serde_json::Value)
    requires
        forall|i: int, j: int|
            #![trigger pairs@[i], pairs@[j]]
            0 <= i < j < pairs@.len() ==> pairs@[i].0@ != pairs@[j].0@,
    ensures
        value_tree(value) == JsonTree::Object(
            members_of(
                pairs@.map_values(
                    |pair: (String, serde_json::Value)| (pair.0@, value_tree(pair.1)),
                ),
            ),
        ),
{
    serde_json::Value::from_iter(pairs)
}

/// The string under `key` of an object, if there is one.
pub fn text_member<'a>(value: &'a serde_json::Value, key: &str) -> (found: Option<&'a str>)
    ensures
        match found {
            Some(text) => value_tree(*value).text_member(key@) == Some(text@),
            None => value_tree(*value).text_member(key@) is None,
        },
{
    match member_of(value, key) {
        Some(inner) => text_of(inner),
        None => None,
    }
}

/// The integer under `key` of an object, if there is one.
pub fn integer_member(value: &serde_json::Value, key: &str) -> (found: Option<i64>)
    ensures
        found == value_tree(*value).integer_member(key@),
{
    match member_of(value, key) {
        Some(inner) => integer_of(inner),
        None => None,
    }
}

/// An object of two members, under distinct keys, as JSON.
pub(crate) fn object_of_two(
    first_key: &str,
    first: serde_json::Value,
    second_key: &str,
    second: serde_json::Value,
) -> (value: serde_json::Value)
    requires
        first_key@ != second_key@,
    ensures
        value_tree(value) == JsonTree::Object(
            map![first_key@ => value_tree(first), second_key@ => value_tree(second)],
        ),
{
    let mut pairs: Vec<(String, serde_json::Value)> = Vec::new();
    pairs.push((first_key.to_owned(), first));
    pairs.push((second_key.to_owned(), second));
    proof {
        let given = pairs@.map_values(
            |pair: (String, serde_json::Value)| (pair.0@, value_tree(pair.1)),
        );
        assert(given.drop_last().last() == (first_key@, value_tree(first)));
        assert(members_of(given.drop_last().drop_last()) == Map::<Seq<char>, JsonTree>::empty());
        assert(members_of(given.drop_last()) == map![first_key@ => value_tree(first)]);
    }
    build_object(pairs)
}

} // verus!
