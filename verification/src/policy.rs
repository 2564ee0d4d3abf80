//! Visibility policies and their resolution against a requester.

use vstd::prelude::*;
use crate::identity::{IdentityView, UserInfo};

verus! {

/// The mathematical value of a [`VisibilityKind`]: the list of friends is a
/// set, since only membership in it matters.
pub enum PolicyView {
    All,
    FriendsOnly(Set<IdentityView>),
    Nobody,
}

/// Who may discover an identity.
#[derive(Debug)]
pub enum VisibilityKind {
    /// Every requester.
    All,
    /// The requesters listed here, and nobody else.
    FriendsOnly(Vec<UserInfo>),
    /// Nobody, the owner included. On the wire this is the token `None`.
    Nobody,
}

/// The identities that occur in `friends`.
pub open spec fn identity_set(friends: Seq<UserInfo>) -> Set<IdentityView> {
    Set::new(|id: IdentityView| exists|i: int| 0 <= i < friends.len() && #[trigger] friends[i]@ == id)
}

impl View for VisibilityKind {
    type V = PolicyView;

    open spec fn view(&self) -> PolicyView {
        match self {
            VisibilityKind::All => PolicyView::All,
            VisibilityKind::FriendsOnly(friends) => PolicyView::FriendsOnly(identity_set(friends@)),
            VisibilityKind::Nobody => PolicyView::Nobody,
        }
    }
}

/// Whether `policy` lets `requester` see its owner.
pub open spec fn admits(policy: PolicyView, requester: IdentityView) -> bool {
    match policy {
        PolicyView::All => true,
        PolicyView::FriendsOnly(allowed) => allowed.contains(requester),
        PolicyView::Nobody => false,
    }
}

/// Whether `who` occurs in `friends`.
pub fn listed(friends: &Vec<UserInfo>, who: &UserInfo) -> (found: bool)
    ensures
        found == identity_set(friends@).contains(who@),
{
    let mut i: usize = 0;
    while i < friends.len()
        invariant
            i <= friends.len(),
            forall|j: int| 0 <= j < i ==> #[trigger] friends[j]@ != who@,
        decreases friends.len() - i,
    {
        if friends[i].same_as(who) {
            return true;
        }
        i += 1;
    }
    false
}

impl VisibilityKind {
    /// Resolves this policy against `requester`.
    pub fn admits(&self, requester: &UserInfo) -> (visible: bool)
        ensures
            visible == admits(self@, requester@),
    {
        match self {
            VisibilityKind::All => true,
            VisibilityKind::FriendsOnly(friends) => listed(friends, requester),
            VisibilityKind::Nobody => false,
        }
    }
}

} // verus!
