//! The wire protocol: from the bytes of one message to a typed request, and
//! from a typed response to the text that answers it.
//!
//! A request is a JSON object. Its member `type` names the request, and the
//! fields of the request are further members of the same object.

use vstd::prelude::*;
use vstd::string::StringExecFns;
use crate::identity::{IdentityView, UserInfo};
use crate::json::{
    find_member, items_view, json_parse, lemma_array_view, lemma_object_view, member_of,
    members_view, parse, Json, JsonView, Member, MemberView,
};
use crate::policy::{identity_set, PolicyView, VisibilityKind};
use crate::request::{
    ConnectRequest, DecodeError, DisconnectRequest, GetRequest, Request, RequestView, Response,
    ResponseView, ServerError,
};
use crate::text::{lemma_single_line_joined, same_str, single_line};

verus! {

/// The optional text under `key`: absent where the member is missing or
/// `null`. The outer `None` says that the member is there and is no text.
pub open spec fn text_field(members: Seq<MemberView>, key: Seq<char>) -> Option<
    Option<Seq<char>>,
> {
    match member_of(members, key) {
        None => Some(None),
        Some(JsonView::Null) => Some(None),
        Some(JsonView::Text(text)) => Some(Some(text)),
        Some(_) => None,
    }
}

/// The identity that `tree` spells: an object whose members `username` and
/// `address` are each a text, `null` or missing.
pub open spec fn identity_of(tree: JsonView) -> Option<IdentityView> {
    match tree {
        JsonView::Object(members) => match (
            text_field(members, "username"@),
            text_field(members, "address"@),
        ) {
            (Some(username), Some(address)) => Some(IdentityView { username, address }),
            _ => None,
        },
        _ => None,
    }
}

/// The identities that `items` spell, where each of them spells one.
pub open spec fn friends_of(items: Seq<JsonView>) -> Option<Set<IdentityView>> {
    if forall|i: int| 0 <= i < items.len() ==> (#[trigger] identity_of(items[i])).is_some() {
        Some(
            Set::new(
                |id: IdentityView|
                    exists|i: int| 0 <= i < items.len() && #[trigger] identity_of(items[i]) == Some(id),
            ),
        )
    } else {
        None
    }
}

/// The policy that `tree` spells: the text `All`, the text `None`, or an
/// object whose only member is `FriendsOnly`, with an array of identities.
pub open spec fn policy_of(tree: JsonView) -> Option<PolicyView> {
    match tree {
        JsonView::Text(name) => if name == "All"@ {
            Some(PolicyView::All)
        } else if name == "None"@ {
            Some(PolicyView::Nobody)
        } else {
            None
        },
        JsonView::Object(members) => if members.len() == 1 && members[0].key == "FriendsOnly"@ {
            match members[0].value {
                JsonView::Array(items) => match friends_of(items) {
                    Some(allowed) => Some(PolicyView::FriendsOnly(allowed)),
                    None => None,
                },
                _ => None,
            }
        } else {
            None
        },
        _ => None,
    }
}

/// The identity under `key`, which must be there.
pub open spec fn identity_field(members: Seq<MemberView>, key: Seq<char>) -> Option<
    IdentityView,
> {
    match member_of(members, key) {
        Some(tree) => identity_of(tree),
        None => None,
    }
}

/// The policy under `key`, which must be there.
pub open spec fn policy_field(members: Seq<MemberView>, key: Seq<char>) -> Option<PolicyView> {
    match member_of(members, key) {
        Some(tree) => policy_of(tree),
        None => None,
    }
}

/// The request called `kind` whose fields are among `members`.
pub open spec fn request_named(kind: Seq<char>, members: Seq<MemberView>) -> Result<
    RequestView,
    DecodeError,
> {
    if kind == "PING"@ {
        Ok(RequestView::Ping)
    } else if kind == "CONNECT"@ {
        match (identity_field(members, "info"@), policy_field(members, "visibility"@)) {
            (Some(info), Some(visibility)) => Ok(RequestView::Connect { info, visibility }),
            _ => Err(DecodeError::Malformed),
        }
    } else if kind == "DISCONNECT"@ {
        match identity_field(members, "info"@) {
            Some(info) => Ok(RequestView::Disconnect { info }),
            None => Err(DecodeError::Malformed),
        }
    } else if kind == "GET"@ {
        match (identity_field(members, "requester"@), identity_field(members, "target"@)) {
            (Some(requester), Some(target)) => Ok(RequestView::Get { requester, target }),
            _ => Err(DecodeError::Malformed),
        }
    } else {
        Err(DecodeError::UnknownType)
    }
}

/// The request that `tree` spells.
pub open spec fn request_of(tree: JsonView) -> Result<RequestView, DecodeError> {
    match tree {
        JsonView::Object(members) => match member_of(members, "type"@) {
            Some(JsonView::Text(kind)) => request_named(kind, members),
            _ => Err(DecodeError::Malformed),
        },
        _ => Err(DecodeError::Malformed),
    }
}

/// The request that the bytes of one message spell.
pub open spec fn decoded(message: Seq<u8>) -> Result<RequestView, DecodeError> {
    match json_parse(message) {
        Some(tree) => request_of(tree),
        None => Err(DecodeError::Malformed),
    }
}

/// Whether `outcome` is the request, or the error, that `expected` says.
pub open spec fn agrees(
    outcome: Result<Request, DecodeError>,
    expected: Result<RequestView, DecodeError>,
) -> bool {
    match outcome {
        Ok(request) => expected == Ok::<RequestView, DecodeError>(request@),
        Err(error) => expected == Err::<RequestView, DecodeError>(error),
    }
}

/// Reads the optional text under `key`.
fn read_text(members: &Vec<Member>, key: &str) -> (field: Option<Option<String>>)
    ensures
        match field {
            Some(Some(text)) => text_field(members_view(members@), key@) == Some(Some(text@)),
            Some(None) => text_field(members_view(members@), key@) == Some(None::<Seq<char>>),
            None => text_field(members_view(members@), key@).is_none(),
        },
{
    match find_member(members, key) {
        None => Some(None),
        Some(Json::Null) => Some(None),
        Some(Json::Text(text)) => Some(Some(text.clone())),
        Some(_) => None,
    }
}

/// Reads an identity.
pub fn decode_identity(tree: &Json) -> (identity: Option<UserInfo>)
    ensures
        match identity {
            Some(info) => identity_of(tree@) == Some(info@),
            None => identity_of(tree@).is_none(),
        },
{
    match tree {
        Json::Object(members) => {
            proof {
                lemma_object_view(*members);
            }
            let username = read_text(members, "username");
            let address = read_text(members, "address");
            match (username, address) {
                (Some(username), Some(address)) => Some(UserInfo { username, address }),
                _ => None,
            }
        },
        _ => None,
    }
}

/// Reads a list of identities.
fn decode_friends(items: &Vec<Json>) -> (friends: Option<Vec<UserInfo>>)
    ensures
        match friends {
            Some(list) => friends_of(items_view(items@)) == Some(identity_set(list@)),
            None => friends_of(items_view(items@)).is_none(),
        },
{
    let mut list: Vec<UserInfo> = Vec::new();
    let mut i: usize = 0;
    while i < items.len()
        invariant
            i <= items@.len(),
            list@.len() == i,
            forall|j: int|
                0 <= j < i ==> #[trigger] identity_of(items_view(items@)[j]) == Some(list@[j]@),
        decreases items@.len() - i,
    {
        assert(items_view(items@)[i as int] == items@[i as int]@);
        match decode_identity(&items[i]) {
            Some(info) => {
                list.push(info);
            },
            None => {
                return None;
            },
        }
        i += 1;
    }
    proof {
        let trees = items_view(items@);
        let spelled = friends_of(trees);
        assert(spelled.is_some());
        assert forall|id: IdentityView| spelled.unwrap().contains(id) == identity_set(
            list@,
        ).contains(id) by {
            if spelled.unwrap().contains(id) {
                let j = choose|j: int|
                    0 <= j < trees.len() && #[trigger] identity_of(trees[j]) == Some(id);
                assert(list@[j]@ == id);
            }
            if identity_set(list@).contains(id) {
                let j = choose|j: int| 0 <= j < list@.len() && #[trigger] list@[j]@ == id;
                assert(identity_of(trees[j]) == Some(id));
            }
        }
        assert(spelled.unwrap() =~= identity_set(list@));
    }
    Some(list)
}

/// Reads a visibility policy.
pub fn decode_policy(tree: &Json) -> (policy: Option<VisibilityKind>)
    ensures
        match policy {
            Some(kind) => policy_of(tree@) == Some(kind@),
            None => policy_of(tree@).is_none(),
        },
{
    match tree {
        Json::Text(name) => {
            if same_str(name.as_str(), "All") {
                Some(VisibilityKind::All)
            } else if same_str(name.as_str(), "None") {
                Some(VisibilityKind::Nobody)
            } else {
                None
            }
        },
        Json::Object(members) => {
            proof {
                lemma_object_view(*members);
            }
            if members.len() == 1 && same_str(members[0].key.as_str(), "FriendsOnly") {
                assert(members_view(members@)[0] == members@[0]@);
                match &members[0].value {
                    Json::Array(items) => {
                        proof {
                            lemma_array_view(*items);
                        }
                        match decode_friends(items) {
                            Some(friends) => Some(VisibilityKind::FriendsOnly(friends)),
                            None => None,
                        }
                    },
                    _ => None,
                }
            } else {
                None
            }
        },
        _ => None,
    }
}

/// Reads the identity that must stand under `key`.
fn read_identity(members: &Vec<Member>, key: &str) -> (identity: Option<UserInfo>)
    ensures
        match identity {
            Some(info) => identity_field(members_view(members@), key@) == Some(info@),
            None => identity_field(members_view(members@), key@).is_none(),
        },
{
    match find_member(members, key) {
        Some(tree) => decode_identity(tree),
        None => None,
    }
}

/// Reads the policy that must stand under `key`.
fn read_policy(members: &Vec<Member>, key: &str) -> (policy: Option<VisibilityKind>)
    ensures
        match policy {
            Some(kind) => policy_field(members_view(members@), key@) == Some(kind@),
            None => policy_field(members_view(members@), key@).is_none(),
        },
{
    match find_member(members, key) {
        Some(tree) => decode_policy(tree),
        None => None,
    }
}

/// Reads the request called `kind` from the members of a message.
fn decode_named(kind: &str, members: &Vec<Member>) -> (outcome: Result<Request, DecodeError>)
    ensures
        agrees(outcome, request_named(kind@, members_view(members@))),
{
    if same_str(kind, "PING") {
        Ok(Request::Ping)
    } else if same_str(kind, "CONNECT") {
        let info = read_identity(members, "info");
        let visibility = read_policy(members, "visibility");
        match (info, visibility) {
            (Some(info), Some(visibility)) => Ok(
                Request::Connect(ConnectRequest { info, visibility }),
            ),
            _ => Err(DecodeError::Malformed),
        }
    } else if same_str(kind, "DISCONNECT") {
        match read_identity(members, "info") {
            Some(info) => Ok(Request::Disconnect(DisconnectRequest { info })),
            None => Err(DecodeError::Malformed),
        }
    } else if same_str(kind, "GET") {
        let requester = read_identity(members, "requester");
        let target = read_identity(members, "target");
        match (requester, target) {
            (Some(requester), Some(target)) => Ok(Request::Get(GetRequest { requester, target })),
            _ => Err(DecodeError::Malformed),
        }
    } else {
        Err(DecodeError::UnknownType)
    }
}

/// Reads a request from a JSON document.
pub fn decode_tree(tree: &Json) -> (outcome: Result<Request, DecodeError>)
    ensures
        agrees(outcome, request_of(tree@)),
{
    match tree {
        Json::Object(members) => {
            proof {
                lemma_object_view(*members);
            }
            match find_member(members, "type") {
                Some(Json::Text(kind)) => decode_named(kind.as_str(), members),
                _ => Err(DecodeError::Malformed),
            }
        },
        _ => Err(DecodeError::Malformed),
    }
}

/// Reads a request from the bytes of one message.
pub fn decode(message: &[u8]) -> (outcome: Result<Request, DecodeError>)
    ensures
        agrees(outcome, decoded(message@)),
{
    match parse(message) {
        Some(tree) => decode_tree(&tree),
        None => Err(DecodeError::Malformed),
    }
}

/// The JSON string literal that `serde_json` writes for `text`: the text
/// between double quotes, with the characters that JSON forbids there
/// escaped.
pub uninterp spec fn json_quoted(text: Seq<char>) -> Seq<char>;

/// `serde_json::to_string`, on a `str`. Writing a string into memory
/// cannot fail, so the result is always `Ok`; [`json_quoted`] names the
/// literal. A line feed is among the characters that are escaped, so the
/// literal holds none.
#[verifier::external_body]
fn write_literal(text: &str) -> (written: Result<String, serde_json::Error>)
    ensures
        match written {
            Ok(literal) => literal@ == json_quoted(text@) && single_line(literal@),
            Err(_) => false,
        },
{
    serde_json::to_string(text)
}

/// The JSON string literal for `text`.
pub fn quote(text: &str) -> (literal: String)
    ensures
        literal@ == json_quoted(text@),
        single_line(literal@),
{
    match write_literal(text) {
        Ok(literal) => literal,
        Err(_) => String::new(),
    }
}

/// The JSON object that spells `identity`: the fields that are there, the
/// username first.
pub open spec fn identity_text(identity: IdentityView) -> Seq<char> {
    match (identity.username, identity.address) {
        (None, None) => "{}"@,
        (Some(username), None) => "{\"username\":"@ + json_quoted(username) + "}"@,
        (None, Some(address)) => "{\"address\":"@ + json_quoted(address) + "}"@,
        (Some(username), Some(address)) => "{\"username\":"@ + json_quoted(username)
            + ",\"address\":"@ + json_quoted(address) + "}"@,
    }
}

/// The text that reports `error`.
pub open spec fn error_text(error: ServerError) -> Seq<char> {
    match error {
        ServerError::Decode(DecodeError::UnknownType) => "{\"error\":\"UnknownType\"}"@,
        ServerError::Decode(DecodeError::Malformed) => "{\"error\":\"Malformed\"}"@,
        ServerError::ProtocolMismatch => "{\"error\":\"ProtocolMismatch\"}"@,
    }
}

/// The text that is sent for `response`.
pub open spec fn response_text(response: ResponseView) -> Seq<char> {
    match response {
        ResponseView::Pong => "PONG"@,
        ResponseView::Accepted => "OK"@,
        ResponseView::Found { target, visible } => "{\"target\":"@ + identity_text(target)
            + ",\"visible\":"@ + (if visible {
            "true"@
        } else {
            "false"@
        }) + "}"@,
        ResponseView::Failed(error) => error_text(error),
    }
}

/// The fixed pieces of the texts that are sent hold no line feed.
proof fn lemma_fixed_texts_are_single_line()
    ensures
        single_line("{}"@),
        single_line("}"@),
        single_line("{\"username\":"@),
        single_line("{\"address\":"@),
        single_line(",\"address\":"@),
        single_line("{\"target\":"@),
        single_line(",\"visible\":"@),
        single_line("true"@),
        single_line("false"@),
        single_line("PONG"@),
        single_line("OK"@),
        single_line("{\"error\":\"UnknownType\"}"@),
        single_line("{\"error\":\"Malformed\"}"@),
        single_line("{\"error\":\"ProtocolMismatch\"}"@),
{
    reveal_strlit("{}");
    reveal_strlit("}");
    reveal_strlit("{\"username\":");
    reveal_strlit("{\"address\":");
    reveal_strlit(",\"address\":");
    reveal_strlit("{\"target\":");
    reveal_strlit(",\"visible\":");
    reveal_strlit("true");
    reveal_strlit("false");
    reveal_strlit("PONG");
    reveal_strlit("OK");
    reveal_strlit("{\"error\":\"UnknownType\"}");
    reveal_strlit("{\"error\":\"Malformed\"}");
    reveal_strlit("{\"error\":\"ProtocolMismatch\"}");
}

/// Appends `piece` to `text`.
fn join(text: &mut String, piece: &str)
    requires
        single_line(old(text)@),
        single_line(piece@),
    ensures
        final(text)@ == old(text)@ + piece@,
        single_line(final(text)@),
{
    proof {
        lemma_single_line_joined(text@, piece@);
    }
    text.append(piece);
}

/// Writes an identity as a JSON object.
pub fn encode_identity(identity: &UserInfo) -> (text: String)
    ensures
        text@ == identity_text(identity@),
        single_line(text@),
{
    proof {
        lemma_fixed_texts_are_single_line();
    }
    match (&identity.username, &identity.address) {
        (None, None) => "{}".to_owned(),
        (Some(username), None) => {
            let mut text = "{\"username\":".to_owned();
            join(&mut text, quote(username.as_str()).as_str());
            join(&mut text, "}");
            text
        },
        (None, Some(address)) => {
            let mut text = "{\"address\":".to_owned();
            join(&mut text, quote(address.as_str()).as_str());
            join(&mut text, "}");
            text
        },
        (Some(username), Some(address)) => {
            let mut text = "{\"username\":".to_owned();
            join(&mut text, quote(username.as_str()).as_str());
            join(&mut text, ",\"address\":");
            join(&mut text, quote(address.as_str()).as_str());
            join(&mut text, "}");
            text
        },
    }
}

/// The text that reports `error`.
pub fn describe(error: ServerError) -> (text: &'static str)
    ensures
        text@ == error_text(error),
        single_line(text@),
{
    proof {
        lemma_fixed_texts_are_single_line();
    }
    match error {
        ServerError::Decode(DecodeError::UnknownType) => "{\"error\":\"UnknownType\"}",
        ServerError::Decode(DecodeError::Malformed) => "{\"error\":\"Malformed\"}",
        ServerError::ProtocolMismatch => "{\"error\":\"ProtocolMismatch\"}",
    }
}

/// Writes the text that is sent for `response`.
pub fn encode(response: &Response) -> (text: String)
    ensures
        text@ == response_text(response@),
        single_line(text@),
{
    proof {
        lemma_fixed_texts_are_single_line();
    }
    match response {
        Response::Pong => "PONG".to_owned(),
        Response::Accepted => "OK".to_owned(),
        Response::Found(found) => {
            let mut text = "{\"target\":".to_owned();
            join(&mut text, encode_identity(&found.target).as_str());
            join(&mut text, ",\"visible\":");
            if found.visible {
                join(&mut text, "true");
            } else {
                join(&mut text, "false");
            }
            join(&mut text, "}");
            text
        },
        Response::Failed(error) => describe(*error).to_owned(),
    }
}

} // verus!
