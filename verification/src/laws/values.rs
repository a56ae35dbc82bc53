//! JSON values and their members.

use vstd::prelude::*;

use crate::json::{JsonModel, NumberModel};

verus! {

/// An object has the member that its map has under the key, and no other.
pub proof fn law_member_of_object(members: Map<Seq<char>, JsonModel>, key: Seq<char>)
    ensures
        members.contains_key(key) ==> JsonModel::Object(members).get(key) == Some(members[key]),
        members.contains_key(key) ==> JsonModel::Object(members).at(key) == members[key],
        !members.contains_key(key) ==> JsonModel::Object(members).get(key) is None,
        !members.contains_key(key) ==> JsonModel::Object(members).at(key) == JsonModel::Null,
{
}

/// What is no object has no members.
pub proof fn law_only_objects_have_members(json: JsonModel, key: Seq<char>)
    requires
        !(json is Object),
    ensures
        json.get(key) is None,
        json.at(key) == JsonModel::Null,
{
}

/// A text, a truth value, an unsigned integer and an array are read from exactly the
/// values that they are.
pub proof fn law_values_are_read_as_what_they_are(json: JsonModel, text: Seq<char>, n: u64)
    ensures
        json.text() == Some(text) <==> json == JsonModel::Text(text),
        json.text() is Some <==> json is Text,
        json.flag() == Some(true) <==> json == JsonModel::Bool(true),
        json.flag() == Some(false) <==> json == JsonModel::Bool(false),
        json.unsigned() == Some(n) <==> json == JsonModel::Number(NumberModel::Unsigned(n)),
        json.unsigned() is Some ==> json is Number,
        json.items() is Some <==> json is Array,
{
}

/// The items of an array are all its items, in their order; nothing else has items.
pub proof fn law_items_of_array(items: Seq<JsonModel>, other: JsonModel)
    ensures
        JsonModel::Array(items).items() == Some(items),
        JsonModel::Array(items).items_or_none() == items,
        !(other is Array) ==> other.items() is None,
        !(other is Array) ==> other.items_or_none().len() == 0,
{
}

} // verus!
