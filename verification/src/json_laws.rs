//! What holds of reading any JSON value.
use crate::json::{members_of, trees, value_tree, JsonNumber, JsonTree};
use vstd::prelude::*;

verus! {

/// An object has a member under exactly the keys that it holds, and that member is what
/// it holds there.
pub proof fn law_object_has_its_members(members: Map<Seq<char>, JsonTree>, key: Seq<char>)
    ensures
        JsonTree::Object(members).member(key) is Some <==> members.contains_key(key),
        members.contains_key(key) ==> JsonTree::Object(members).member(key) == Some(members[key]),
{
}

/// Only an object has members, and only a string has characters.
pub proof fn law_kinds_are_told_apart(value: JsonTree, key: Seq<char>)
    ensures
        !(value is Object) ==> value.member(key) is None,
        value.as_text() is Some <==> value is Text,
        value.as_integer() is Some ==> value is Number,
{
}

/// A string is read as its characters, by itself and under any key, and what is read as
/// characters is a string.
pub proof fn law_string_is_read_whole(value: JsonTree, key: Seq<char>, text: Seq<char>)
    ensures
        value.as_text() == Some(text) <==> value == JsonTree::Text(text),
        value.text_member(key) == Some(text) <==> value.member(key) == Some(JsonTree::Text(text)),
{
}

/// An integer is read as its value, by itself and under any key, exactly where that fits
/// in 64 bits with a sign.
pub proof fn law_integer_is_read_whole(value: JsonTree, key: Seq<char>, n: i64)
    ensures
        value.as_integer() == Some(n) <==> value == JsonTree::Number(JsonNumber::Negative(n)) || (n
            >= 0 && value == JsonTree::Number(JsonNumber::Unsigned(n as u64))),
        value.integer_member(key) == Some(n) <==> (value.member(key) is Some && value.member(
            key,
        )->0.as_integer() == Some(n)),
{
}

/// The object of one pair more has that member more, and no other member changes.
pub proof fn law_pair_adds_its_member(
    pairs: Seq<(Seq<char>, JsonTree)>,
    key: Seq<char>,
    value: JsonTree,
    other: Seq<char>,
)
    ensures
        members_of(Seq::<(Seq<char>, JsonTree)>::empty()).dom() == Set::<Seq<char>>::empty(),
        members_of(pairs.push((key, value))).contains_key(key),
        members_of(pairs.push((key, value)))[key] == value,
        other != key ==> (members_of(pairs.push((key, value))).contains_key(other)
            <==> members_of(pairs).contains_key(other)),
        other != key && members_of(pairs).contains_key(other) ==> members_of(
            pairs.push((key, value)),
        )[other] == members_of(pairs)[other],
{
    assert(pairs.push((key, value)).drop_last() =~= pairs);
    assert(members_of(Seq::<(Seq<char>, JsonTree)>::empty()).dom() =~= Set::<Seq<char>>::empty());
}

/// The trees of some values are theirs, one for one.
pub proof fn law_trees_are_one_for_one(values: Seq<serde_json::Value>, at: int)
    ensures
        trees(values).len() == values.len(),
        0 <= at < values.len() ==> trees(values)[at] == value_tree(values[at]),
{
}

} // verus!
