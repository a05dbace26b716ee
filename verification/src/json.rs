//! The JSON texts written with `serde_json`.
use vstd::prelude::*;
use std::collections::BTreeMap;

verus! {

#[verifier::external_type_specification]
#[verifier::external_body]
pub struct ExJsonError(serde_json::Error);

/// The text `serde_json::to_string_pretty` writes for an array of strings.
pub uninterp spec fn pretty_json_string_array(items: Seq<Seq<char>>) -> Seq<char>;

/// The text `serde_json::to_string_pretty` writes for an object whose members map
/// the keys of `members` to their string values.
pub uninterp spec fn pretty_json_string_object(members: Map<Seq<char>, Seq<char>>) -> Seq<char>;

/// The text `serde_json::to_string_pretty` writes for an object with one member,
/// `key`, whose value is the array of the strings `items`.
pub uninterp spec fn pretty_json_object_of_list(key: Seq<char>, items: Seq<Seq<char>>) -> Seq<
    char,
>;

/// The map from each pair's key to its value (the keys being distinct).
pub open spec fn members_of(pairs: Seq<(Seq<char>, Seq<char>)>) -> Map<Seq<char>, Seq<char>>
    decreases pairs.len(),
{
    if pairs.len() == 0 {
        Map::empty()
    } else {
        members_of(pairs.drop_last()).insert(pairs.last().0, pairs.last().1)
    }
}

/// Calls `serde_json::to_string_pretty` on a list of strings. As serde_json documents,
/// serializing fails only when a `Serialize` impl decides to fail or a map has keys
/// that are not strings; neither can happen with strings, so the call succeeds. The
/// text is the pretty-printed array of the strings, in order.
#[verifier::external_body]
pub(crate) fn strings_to_pretty_json(items: &Vec<&str>) -> (r: Result<String, serde_json::Error>)
    ensures
        r is Ok,
        r matches Ok(text) ==> text@ == pretty_json_string_array(items@.map_values(|s: &str| s@)),
{
    serde_json::to_string_pretty(items)
}

/// Calls `serde_json::to_string_pretty` on the `BTreeMap` collected from the pairs,
/// whose keys must be distinct (which of two values under one key a `BTreeMap` keeps
/// is not documented). Keys and values are strings, so, as serde_json documents, the
/// call succeeds; the text is the pretty-printed object of those members.
#[verifier::external_body]
pub(crate) fn pairs_to_pretty_json_object(pairs: &Vec<(&str, String)>) -> (r: Result<
    String,
    serde_json::Error,
>)
    requires
        forall|i: int, j: int|
            0 <= i < j < pairs@.len() ==> (#[trigger] pairs@[i]).0@ != (#[trigger] pairs@[j]).0@,
    ensures
        r is Ok,
        r matches Ok(text) ==> text@ == pretty_json_string_object(
            members_of(pairs@.map_values(|p: (&str, String)| (p.0@, p.1@))),
        ),
{
    let members: BTreeMap<&str, &String> = pairs.iter().map(|(k, v)| (*k, v)).collect();
    serde_json::to_string_pretty(&members)
}

/// Calls `serde_json::to_string_pretty` on a one-member `BTreeMap` from `key` to the
/// list of strings. Keys and values are strings, so, as serde_json documents, the
/// call succeeds; the text is the pretty-printed object with that one member.
#[verifier::external_body]
pub(crate) fn list_to_pretty_json_object(key: &str, items: &Vec<String>) -> (r: Result<
    String,
    serde_json::Error,
>)
    ensures
        r is Ok,
        r matches Ok(text) ==> text@ == pretty_json_object_of_list(
            key@,
            items@.map_values(|s: String| s@),
        ),
{
    serde_json::to_string_pretty(&BTreeMap::from([(key, items)]))
}

} // verus!
