//! JSON documents as trees, and the parser that produces them.

use vstd::prelude::*;
use crate::text::same_str;

verus! {

/// A JSON document. Numbers are kept without their value: no message of
/// the protocol carries one.
#[derive(Debug)]
pub enum Json {
    Null,
    Bool(bool),
    Number,
    Text(String),
    Array(Vec<Json>),
    Object(Vec<Member>),
}

/// One `"key": value` pair of an object.
#[derive(Debug)]
pub struct Member {
    pub key: String,
    pub value: Json,
}

/// The mathematical value of a [`Json`].
pub enum JsonView {
    Null,
    Bool(bool),
    Number,
    Text(Seq<char>),
    Array(Seq<JsonView>),
    Object(Seq<MemberView>),
}

/// The mathematical value of a [`Member`].
pub struct MemberView {
    pub key: Seq<char>,
    pub value: JsonView,
}

impl View for Json {
    type V = JsonView;

    open spec fn view(&self) -> JsonView
        decreases self,
    {
        match self {
            Json::Null => JsonView::Null,
            Json::Bool(flag) => JsonView::Bool(*flag),
            Json::Number => JsonView::Number,
            Json::Text(text) => JsonView::Text(text@),
            Json::Array(items) => JsonView::Array(
                Seq::new(
                    items@.len(),
                    |i: int|
                        if 0 <= i < items@.len() {
                            items@[i].view()
                        } else {
                            JsonView::Null
                        },
                ),
            ),
            Json::Object(members) => JsonView::Object(
                Seq::new(
                    members@.len(),
                    |i: int|
                        if 0 <= i < members@.len() {
                            MemberView { key: members@[i].key@, value: members@[i].value.view() }
                        } else {
                            MemberView { key: Seq::empty(), value: JsonView::Null }
                        },
                ),
            ),
        }
    }
}

impl View for Member {
    type V = MemberView;

    open spec fn view(&self) -> MemberView {
        MemberView { key: self.key@, value: self.value@ }
    }
}

/// `serde_json::Value`, as an opaque value: it is only carried from the
/// parser to [`into_tree`].
#[verifier::external_type_specification]
#[verifier::external_body]
pub struct ExValue(serde_json::Value);

/// `serde_json::Error`, as an opaque value: nothing is read from it.
#[verifier::external_type_specification]
#[verifier::external_body]
pub struct ExError(serde_json::Error);

/// The values of `items`, each in its place.
pub open spec fn items_view(items: Seq<Json>) -> Seq<JsonView> {
    items.map_values(|item: Json| item@)
}

/// The values of `members`, each in its place.
pub open spec fn members_view(members: Seq<Member>) -> Seq<MemberView> {
    members.map_values(|member: Member| member@)
}

/// The value of an array is the array of the values of its items.
pub proof fn lemma_array_view(items: Vec<Json>)
    ensures
        Json::Array(items)@ == JsonView::Array(items_view(items@)),
{
    assert(Json::Array(items)@->Array_0 =~= items_view(items@));
}

/// The value of an object is the sequence of the values of its members.
pub proof fn lemma_object_view(members: Vec<Member>)
    ensures
        Json::Object(members)@ == JsonView::Object(members_view(members@)),
{
    assert(Json::Object(members)@->Object_0 =~= members_view(members@));
}

/// The document that `serde_json` reads from `bytes`, or `None` where it
/// rejects them.
pub uninterp spec fn json_parse(bytes: Seq<u8>) -> Option<JsonView>;

/// The tree that a `serde_json::Value` stands for.
pub uninterp spec fn value_tree(value: serde_json::Value) -> JsonView;

/// `serde_json::from_slice`, reading a `serde_json::Value`. Whether it
/// accepts the bytes, and the value it returns if it does, depend on the
/// bytes alone: [`json_parse`] names that outcome, by the tree of the
/// value.
#[verifier::external_body]
fn read_value(bytes: &[u8]) -> (read: Result<serde_json::Value, serde_json::Error>)
    ensures
        match read {
            Ok(value) => json_parse(bytes@) == Some(value_tree(value)),
            Err(_) => json_parse(bytes@).is_none(),
        },
{
    serde_json::from_slice::<serde_json::Value>(bytes)
}

/// Takes a `serde_json::Value` apart, variant by variant, into a [`Json`]
/// of the same shape. The members of an object come in the order in which
/// `serde_json::Map` hands them out.
#[verifier::external_body]
fn into_tree(value: serde_json::Value) -> (tree: Json)
    ensures
        tree@ == value_tree(value),
{
    match value {
        serde_json::Value::Null => Json::Null,
        serde_json::Value::Bool(flag) => Json::Bool(flag),
        serde_json::Value::Number(_) => Json::Number,
        serde_json::Value::String(text) => Json::Text(text),
        serde_json::Value::Array(items) => Json::Array(items.into_iter().map(into_tree).collect()),
        serde_json::Value::Object(map) => Json::Object(
            map.into_iter().map(|(key, item)| Member { key, value: into_tree(item) }).collect(),
        ),
    }
}

/// The value of the first member of `members` whose key is `key`.
pub open spec fn member_of(members: Seq<MemberView>, key: Seq<char>) -> Option<JsonView>
    decreases members.len(),
{
    if members.len() == 0 {
        None
    } else if members[0].key == key {
        Some(members[0].value)
    } else {
        member_of(members.drop_first(), key)
    }
}

/// Finds the first member of `members` whose key is `key`.
pub fn find_member<'a>(members: &'a Vec<Member>, key: &str) -> (found: Option<&'a Json>)
    ensures
        match found {
            Some(value) => member_of(members_view(members@), key@) == Some(value@),
            None => member_of(members_view(members@), key@).is_none(),
        },
{
    let ghost all = members_view(members@);
    let mut i: usize = 0;
    assert(all.skip(0) =~= all);
    while i < members.len()
        invariant
            all == members_view(members@),
            i <= members@.len(),
            member_of(all, key@) == member_of(all.skip(i as int), key@),
        decreases members@.len() - i,
    {
        assert(all.skip(i as int)[0] == members@[i as int]@);
        if same_str(members[i].key.as_str(), key) {
            return Some(&members[i].value);
        }
        assert(all.skip(i as int).drop_first() =~= all.skip(i + 1));
        i += 1;
    }
    None
}

/// Parses one JSON document.
pub fn parse(bytes: &[u8]) -> (tree: Option<Json>)
    ensures
        match tree {
            Some(document) => json_parse(bytes@) == Some(document@),
            None => json_parse(bytes@).is_none(),
        },
{
    match read_value(bytes) {
        Ok(value) => Some(into_tree(value)),
        Err(_) => None,
    }
}

} // verus!
