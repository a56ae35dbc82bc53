//! JSON values: the plain form in which the replies of the service are read, and
//! in which the variables of a request are written.

use vstd::prelude::*;

use crate::model::{lemma_mapped, lemma_models_push, mapped, models};
use crate::text::same_text;

verus! {

/// A JSON number. A number that is neither an unsigned nor a negative 64-bit integer
/// is kept as its text.
#[derive(Debug)]
pub enum JsonNumber {
    Unsigned(u64),
    Negative(i64),
    Float(String),
}

/// A JSON value. The members of an object stand in the order in which they were
/// written; where a key is repeated, its last value counts.
#[derive(Debug)]
pub enum Json {
    Null,
    Bool(bool),
    Number(JsonNumber),
    Text(String),
    Array(Vec<Json>),
    Object(Vec<(String, Json)>),
}

/// What a [`JsonNumber`] stands for.
pub enum NumberModel {
    Unsigned(u64),
    Negative(i64),
    Float(Seq<char>),
}

/// What a [`Json`] stands for: an object is a map, whatever the order of its members.
pub enum JsonModel {
    Null,
    Bool(bool),
    Number(NumberModel),
    Text(Seq<char>),
    Array(Seq<JsonModel>),
    Object(Map<Seq<char>, JsonModel>),
}

impl JsonModel {
    /// The member `key`, where this is an object that has one.
    pub open spec fn get(self, key: Seq<char>) -> Option<JsonModel> {
        match self {
            JsonModel::Object(members) => if members.contains_key(key) {
                Some(members[key])
            } else {
                None
            },
            _ => None,
        }
    }

    /// The member `key`, or null where there is none.
    pub open spec fn at(self, key: Seq<char>) -> JsonModel {
        match self.get(key) {
            Some(member) => member,
            None => JsonModel::Null,
        }
    }

    /// The text, where this is a text.
    pub open spec fn text(self) -> Option<Seq<char>> {
        match self {
            JsonModel::Text(text) => Some(text),
            _ => None,
        }
    }

    /// The truth value, where this is one.
    pub open spec fn flag(self) -> Option<bool> {
        match self {
            JsonModel::Bool(flag) => Some(flag),
            _ => None,
        }
    }

    /// The unsigned integer, where this is one.
    pub open spec fn unsigned(self) -> Option<u64> {
        match self {
            JsonModel::Number(NumberModel::Unsigned(n)) => Some(n),
            _ => None,
        }
    }

    /// The items, where this is an array.
    pub open spec fn items(self) -> Option<Seq<JsonModel>> {
        match self {
            JsonModel::Array(items) => Some(items),
            _ => None,
        }
    }

    /// The items of an array, and none of anything else.
    pub open spec fn items_or_none(self) -> Seq<JsonModel> {
        match self {
            JsonModel::Array(items) => items,
            _ => seq![],
        }
    }
}

impl View for JsonNumber {
    type V = NumberModel;

    open spec fn view(&self) -> NumberModel {
        match self {
            JsonNumber::Unsigned(n) => NumberModel::Unsigned(*n),
            JsonNumber::Negative(n) => NumberModel::Negative(*n),
            JsonNumber::Float(text) => NumberModel::Float(text@),
        }
    }
}

/// What `json` stands for.
pub open spec fn json_model(json: Json) -> JsonModel
    decreases json,
{
    match json {
        Json::Null => JsonModel::Null,
        Json::Bool(flag) => JsonModel::Bool(flag),
        Json::Number(number) => JsonModel::Number(number@),
        Json::Text(text) => JsonModel::Text(text@),
        Json::Array(items) => JsonModel::Array(
            Seq::new(
                items@.len(),
                |i: int|
                    if 0 <= i < items@.len() {
                        json_model(items@[i])
                    } else {
                        JsonModel::Null
                    },
            ),
        ),
        Json::Object(members) => JsonModel::Object(mapped(listed_members(members@))),
    }
}

/// What members stand for, in the order in which they are written.
pub open spec fn listed_members(members: Seq<(String, Json)>) -> Seq<(Seq<char>, JsonModel)>
    decreases members,
{
    Seq::new(
        members.len(),
        |i: int|
            if 0 <= i < members.len() {
                (members[i].0@, json_model(members[i].1))
            } else {
                (seq![], JsonModel::Null)
            },
    )
}

impl View for Json {
    type V = JsonModel;

    open spec fn view(&self) -> JsonModel {
        json_model(*self)
    }
}

/// What a sequence of members stands for.
pub open spec fn member_models(members: Seq<(String, Json)>) -> Seq<(Seq<char>, JsonModel)> {
    members.map_values(|member: (String, Json)| (member.0@, member.1@))
}

/// The view of an array is made of the views of its items, and that of an object of
/// the views of its members.
pub broadcast proof fn lemma_json_view(json: Json)
    ensures
        json matches Json::Array(items) ==> #[trigger] json_model(json) == JsonModel::Array(
            models(items@),
        ),
        json matches Json::Object(members) ==> json_model(json) == JsonModel::Object(
            mapped(member_models(members@)),
        ),
{
    match json {
        Json::Array(items) => {
            assert(json_model(json)->Array_0 =~= models(items@));
        },
        Json::Object(members) => {
            assert(listed_members(members@) =~= member_models(members@));
        },
        _ => {},
    }
}

/// Adding a member adds its view.
proof fn lemma_member_models_push(members: Seq<(String, Json)>, member: (String, Json))
    ensures
        member_models(members.push(member)) == member_models(members).push(
            (member.0@, member.1@),
        ),
{
    assert(member_models(members.push(member)) =~= member_models(members).push(
        (member.0@, member.1@),
    ));
}

impl Json {
    /// The member `key`, where this is an object that has one.
    pub fn get(&self, key: &str) -> (member: Option<&Json>)
        ensures
            match self@.get(key@) {
                Some(model) => member matches Some(found) && found@ == model,
                None => member is None,
            },
    {
        broadcast use lemma_json_view;

        match self {
            Json::Object(members) => {
                let ghost listed = member_models(members@);
                let mut left: usize = members.len();
                proof {
                    lemma_mapped(listed, key@);
                }
                while left > 0
                    invariant
                        left <= members@.len(),
                        listed == member_models(members@),
                        self@ == JsonModel::Object(mapped(listed)),
                        mapped(listed).contains_key(key@) <==> exists|i: int|
                            0 <= i < listed.len() && #[trigger] listed[i].0 == key@,
                        forall|i: int|
                            #![trigger listed[i]]
                            0 <= i < listed.len() && listed[i].0 == key@ && (forall|j: int|
                                i < j < listed.len() ==> #[trigger] listed[j].0 != key@)
                                ==> mapped(listed)[key@] == listed[i].1,
                        forall|j: int| left <= j < listed.len() ==> #[trigger] listed[j].0 != key@,
                    decreases left,
                {
                    left -= 1;
                    let member: &(String, Json) = &members[left];
                    assert(listed[left as int] == (member.0@, member.1@));
                    if same_text(member.0.as_str(), key) {
                        return Some(&member.1);
                    }
                }
                None
            },
            _ => None,
        }
    }

    /// The member `key`, or null where there is none.
    pub fn at(&self, key: &str) -> (member: &Json)
        ensures
            member@ == self@.at(key@),
    {
        match self.get(key) {
            Some(member) => member,
            None => &Json::Null,
        }
    }

    /// Whether this is null.
    pub fn is_null(&self) -> (null: bool)
        ensures
            null == (self@ == JsonModel::Null),
    {
        match self {
            Json::Null => true,
            _ => false,
        }
    }

    /// The text, where this is a text.
    pub fn as_str(&self) -> (text: Option<&str>)
        ensures
            match self@.text() {
                Some(model) => text matches Some(found) && found@ == model,
                None => text is None,
            },
    {
        match self {
            Json::Text(text) => Some(text.as_str()),
            _ => None,
        }
    }

    /// The truth value, where this is one.
    pub fn as_bool(&self) -> (flag: Option<bool>)
        ensures
            flag == self@.flag(),
    {
        match self {
            Json::Bool(flag) => Some(*flag),
            _ => None,
        }
    }

    /// The unsigned integer, where this is one.
    pub fn as_u64(&self) -> (n: Option<u64>)
        ensures
            n == self@.unsigned(),
    {
        match self {
            Json::Number(JsonNumber::Unsigned(n)) => Some(*n),
            _ => None,
        }
    }

    /// The items, where this is an array.
    pub fn as_array(&self) -> (items: Option<&Vec<Json>>)
        ensures
            match self@.items() {
                Some(listed) => items matches Some(found) && models(found@) == listed,
                None => items is None,
            },
    {
        broadcast use lemma_json_view;

        match self {
            Json::Array(items) => Some(items),
            _ => None,
        }
    }
}

impl Clone for JsonNumber {
    fn clone(&self) -> (copy: Self)
        ensures
            copy@ == self@,
    {
        match self {
            JsonNumber::Unsigned(n) => JsonNumber::Unsigned(*n),
            JsonNumber::Negative(n) => JsonNumber::Negative(*n),
            JsonNumber::Float(text) => JsonNumber::Float(text.clone()),
        }
    }
}

impl Clone for Json {
    fn clone(&self) -> (copy: Self)
        ensures
            copy@ == self@,
        decreases self,
    {
        broadcast use lemma_json_view;

        match self {
            Json::Null => Json::Null,
            Json::Bool(flag) => Json::Bool(*flag),
            Json::Number(number) => Json::Number(number.clone()),
            Json::Text(text) => Json::Text(text.clone()),
            Json::Array(items) => Json::Array(copy_items(items)),
            Json::Object(members) => {
                let mut copies: Vec<(String, Json)> = Vec::new();
                let mut i: usize = 0;
                while i < members.len()
                    invariant
                        self matches Json::Object(it) && it == members,
                        i <= members@.len(),
                        member_models(copies@) == member_models(members@).take(i as int),
                    decreases members@.len() - i,
                {
                    let copy: Json = members[i].1.clone();
                    let member: (String, Json) = (members[i].0.clone(), copy);
                    proof {
                        lemma_member_models_push(copies@, member);
                    }
                    copies.push(member);
                    i += 1;
                    assert(member_models(copies@) =~= member_models(members@).take(i as int));
                }
                assert(member_models(members@).take(i as int) =~= member_models(members@));
                Json::Object(copies)
            },
        }
    }
}

/// A copy of a sequence of values.
pub fn copy_items(items: &Vec<Json>) -> (copies: Vec<Json>)
    ensures
        models(copies@) == models(items@),
    decreases items,
{
    let mut copies: Vec<Json> = Vec::new();
    let mut i: usize = 0;
    while i < items.len()
        invariant
            i <= items@.len(),
            models(copies@) == models(items@).take(i as int),
        decreases items@.len() - i,
    {
        let copy: Json = items[i].clone();
        proof {
            lemma_models_push(copies@, copy);
        }
        copies.push(copy);
        i += 1;
        assert(models(copies@) =~= models(items@).take(i as int));
    }
    assert(models(items@).take(i as int) =~= models(items@));
    copies
}

} // verus!
