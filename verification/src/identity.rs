//! Client identities.

use vstd::prelude::*;

verus! {

/// The mathematical value of a [`UserInfo`]: each field is either absent or
/// a sequence of characters.
pub struct IdentityView {
    pub username: Option<Seq<char>>,
    pub address: Option<Seq<char>>,
}

/// The self-asserted identity of a client: a username, a network address,
/// both, or neither. Two identities are the same when both fields agree.
#[derive(Debug)]
pub struct UserInfo {
    pub username: Option<String>,
    pub address: Option<String>,
}

/// The value of an optional string.
pub open spec fn text_view(text: Option<String>) -> Option<Seq<char>> {
    match text {
        Some(s) => Some(s@),
        None => None,
    }
}

impl View for UserInfo {
    type V = IdentityView;

    open spec fn view(&self) -> IdentityView {
        IdentityView { username: text_view(self.username), address: text_view(self.address) }
    }
}

/// Whether two optional strings hold the same text, or are both absent.
pub fn same_text(left: &Option<String>, right: &Option<String>) -> (same: bool)
    ensures
        same == (text_view(*left) == text_view(*right)),
{
    match (left, right) {
        (Some(a), Some(b)) => *a == *b,
        (None, None) => true,
        _ => false,
    }
}

/// A copy of an optional string.
pub fn copy_text(text: &Option<String>) -> (copy: Option<String>)
    ensures
        text_view(copy) == text_view(*text),
{
    match text {
        Some(s) => Some(s.clone()),
        None => None,
    }
}

impl UserInfo {
    /// An identity with the given fields.
    pub fn new(username: Option<String>, address: Option<String>) -> (identity: UserInfo)
        ensures
            identity.username == username,
            identity.address == address,
    {
        UserInfo { username, address }
    }

    /// Whether `self` and `other` are the same identity.
    pub fn same_as(&self, other: &UserInfo) -> (same: bool)
        ensures
            same == (self@ == other@),
    {
        same_text(&self.username, &other.username) && same_text(&self.address, &other.address)
    }

    /// A copy of this identity.
    pub fn duplicate(&self) -> (copy: UserInfo)
        ensures
            copy@ == self@,
    {
        UserInfo { username: copy_text(&self.username), address: copy_text(&self.address) }
    }
}

impl PartialEq for UserInfo {
    fn eq(&self, other: &UserInfo) -> (same: bool) {
        self.same_as(other)
    }
}

impl vstd::std_specs::cmp::PartialEqSpecImpl for UserInfo {
    open spec fn obeys_eq_spec() -> bool {
        true
    }

    open spec fn eq_spec(&self, other: &UserInfo) -> bool {
        self@ == other@
    }
}

} // verus!
