//! What holds of the registry and of the protocol, whatever the identities,
//! the policies and the messages.
//!
//! The registry's operations are stated over its value, a map: a connect
//! is an insertion, a disconnect a removal, and a lookup is [`lookup_in`].

use vstd::prelude::*;
use crate::codec::{decoded, identity_field, request_named};
use crate::dispatch::{
    mutates, needs_writer, next_phase, outcome_of, registry_after, registry_next, registry_past,
    reply_bytes, response_to, PhaseView,
};
use crate::identity::IdentityView;
use crate::json::{member_of, MemberView};
use crate::policy::PolicyView;
use crate::registry::{lookup_in, shown_in, RegistryView, Visibility};
use crate::request::{DecodeError, RequestView, ResponseView, ServerError};

verus! {

/// An identity that connects with the policy `All` is visible to every
/// requester, itself included.
pub proof fn lemma_all_shows_to_everyone(
    registry: RegistryView,
    owner: IdentityView,
    requester: IdentityView,
)
    ensures
        lookup_in(registry.insert(owner, PolicyView::All), requester, owner)
            == Visibility::Visible,
        lookup_in(registry.insert(owner, PolicyView::All), owner, owner) == Visibility::Visible,
{
}

/// An identity that connects with the policy `Nobody` is visible to no
/// requester, itself included.
pub proof fn lemma_nobody_hides_from_everyone(
    registry: RegistryView,
    owner: IdentityView,
    requester: IdentityView,
)
    ensures
        lookup_in(registry.insert(owner, PolicyView::Nobody), requester, owner)
            == Visibility::NotVisible,
        lookup_in(registry.insert(owner, PolicyView::Nobody), owner, owner)
            == Visibility::NotVisible,
{
}

/// An identity that connects with a list of friends is visible to a
/// requester exactly when the requester is on the list.
pub proof fn lemma_friends_only_shows_to_friends(
    registry: RegistryView,
    owner: IdentityView,
    allowed: Set<IdentityView>,
    requester: IdentityView,
)
    ensures
        lookup_in(registry.insert(owner, PolicyView::FriendsOnly(allowed)), requester, owner) == (
        if allowed.contains(requester) {
            Visibility::Visible
        } else {
            Visibility::NotVisible
        }),
        shown_in(registry.insert(owner, PolicyView::FriendsOnly(allowed)), requester, owner)
            <==> allowed.contains(requester),
{
}

/// The registry that `requests`, served in their order, make of `registry`.
pub open spec fn registry_through(
    registry: RegistryView,
    requests: Seq<RequestView>,
) -> RegistryView
    decreases requests.len(),
{
    if requests.len() == 0 {
        registry
    } else {
        registry_after(registry_through(registry, requests.drop_last()), requests.last())
    }
}

/// Whether `request` connects `identity`.
pub open spec fn connects(request: RequestView, identity: IdentityView) -> bool {
    match request {
        RequestView::Connect { info, .. } => info == identity,
        _ => false,
    }
}

/// Before an identity has connected, no requester is shown it: whatever
/// requests an empty registry has served, as long as none of them connected
/// the identity, a lookup of it finds nothing.
pub proof fn lemma_never_connected_is_not_shown(
    requests: Seq<RequestView>,
    target: IdentityView,
    requester: IdentityView,
)
    requires
        forall|i: int| 0 <= i < requests.len() ==> !connects(#[trigger] requests[i], target),
    ensures
        lookup_in(registry_through(Map::empty(), requests), requester, target)
            == Visibility::Unknown,
        !shown_in(registry_through(Map::empty(), requests), requester, target),
    decreases requests.len(),
{
    if requests.len() > 0 {
        let earlier = requests.drop_last();
        assert forall|i: int| 0 <= i < earlier.len() implies !connects(
            #[trigger] earlier[i],
            target,
        ) by {
            assert(earlier[i] == requests[i]);
        }
        lemma_never_connected_is_not_shown(earlier, target, requester);
        assert(!connects(requests[requests.len() - 1], target));
    }
}

/// After an identity has disconnected, no requester is shown it, whatever
/// policy it had connected with.
pub proof fn lemma_disconnected_is_not_shown(
    registry: RegistryView,
    target: IdentityView,
    policy: PolicyView,
    requester: IdentityView,
)
    ensures
        lookup_in(registry.insert(target, policy).remove(target), requester, target)
            == Visibility::Unknown,
        !shown_in(registry.insert(target, policy).remove(target), requester, target),
        !shown_in(registry.remove(target), requester, target),
{
}

/// A second disconnect of the same identity changes nothing, and it is
/// acknowledged as the first one was.
pub proof fn lemma_disconnect_is_idempotent(registry: RegistryView, target: IdentityView)
    ensures
        registry.remove(target).remove(target) == registry.remove(target),
        response_to(registry.remove(target), RequestView::Disconnect { info: target })
            == ResponseView::Accepted,
        response_to(registry, RequestView::Disconnect { info: target })
            == ResponseView::Accepted,
{
    assert(registry.remove(target).remove(target) =~= registry.remove(target));
}

/// The last connect of an identity decides: the policy of an earlier one
/// leaves no trace. So an identity that connects with `All` and then with
/// `Nobody` is visible to no requester.
pub proof fn lemma_last_connect_wins(
    registry: RegistryView,
    owner: IdentityView,
    earlier: PolicyView,
    later: PolicyView,
    requester: IdentityView,
)
    ensures
        registry.insert(owner, earlier).insert(owner, later) == registry.insert(owner, later),
        lookup_in(
            registry.insert(owner, PolicyView::All).insert(owner, PolicyView::Nobody),
            requester,
            owner,
        ) == Visibility::NotVisible,
{
    assert(registry.insert(owner, earlier).insert(owner, later) =~= registry.insert(owner, later));
}

/// The identity that `request` registers or removes, if it does either.
pub open spec fn touched(request: RequestView) -> Option<IdentityView> {
    match request {
        RequestView::Connect { info, .. } => Some(info),
        RequestView::Disconnect { info } => Some(info),
        _ => None,
    }
}

/// Two requests that do not touch the same identity leave the same
/// registry in either order.
pub proof fn lemma_requests_on_distinct_identities_commute(
    registry: RegistryView,
    first: RequestView,
    second: RequestView,
)
    requires
        touched(first).is_none() || touched(second).is_none() || touched(first) != touched(
            second,
        ),
    ensures
        registry_after(registry_after(registry, first), second) == registry_after(
            registry_after(registry, second),
            first,
        ),
{
    assert(registry_after(registry_after(registry, first), second) =~= registry_after(
        registry_after(registry, second),
        first,
    ));
}

/// Whether no two of `requests` touch the same identity.
pub open spec fn touch_distinct_identities(requests: Seq<RequestView>) -> bool {
    forall|i: int, j: int|
        0 <= i < j < requests.len() && touched(#[trigger] requests[i]).is_some() ==> touched(
            #[trigger] requests[j],
        ) != touched(requests[i])
}

/// Whether `left` and `right` say the same of `identity`.
pub open spec fn agree_on(left: RegistryView, right: RegistryView, identity: IdentityView) -> bool {
    &&& left.dom().contains(identity) == right.dom().contains(identity)
    &&& left.dom().contains(identity) ==> left[identity] == right[identity]
}

/// Among requests that touch distinct identities, the one that touches an
/// identity decides alone what the registry says of it, wherever it stands
/// in the order.
pub proof fn lemma_one_request_decides(
    registry: RegistryView,
    requests: Seq<RequestView>,
    place: int,
    identity: IdentityView,
)
    requires
        touch_distinct_identities(requests),
        0 <= place < requests.len(),
        touched(requests[place]) == Some(identity),
    ensures
        agree_on(
            registry_through(registry, requests),
            registry_after(registry, requests[place]),
            identity,
        ),
    decreases requests.len(),
{
    let last = requests.len() - 1;
    let earlier = requests.drop_last();
    if place < last {
        assert forall|i: int, j: int|
            0 <= i < j < earlier.len() && touched(#[trigger] earlier[i]).is_some() implies touched(
            #[trigger] earlier[j],
        ) != touched(earlier[i]) by {
            assert(earlier[i] == requests[i]);
            assert(earlier[j] == requests[j]);
        }
        assert(earlier[place] == requests[place]);
        lemma_one_request_decides(registry, earlier, place, identity);
        assert(touched(requests[last]) != touched(requests[place]));
    }
}

/// An identity that no request touches is left as it was.
pub proof fn lemma_untouched_is_unchanged(
    registry: RegistryView,
    requests: Seq<RequestView>,
    identity: IdentityView,
)
    requires
        forall|i: int| 0 <= i < requests.len() ==> touched(#[trigger] requests[i]) != Some(identity),
    ensures
        agree_on(registry_through(registry, requests), registry, identity),
    decreases requests.len(),
{
    if requests.len() > 0 {
        let earlier = requests.drop_last();
        assert forall|i: int| 0 <= i < earlier.len() implies touched(#[trigger] earlier[i])
            != Some(identity) by {
            assert(earlier[i] == requests[i]);
        }
        lemma_untouched_is_unchanged(registry, earlier, identity);
        assert(touched(requests[requests.len() - 1]) != Some(identity));
    }
}

/// Requests that touch distinct identities leave the same registry in
/// whatever order they are served: every serialization of them agrees, and
/// so does every lookup that follows.
pub proof fn lemma_serializations_agree(
    registry: RegistryView,
    one: Seq<RequestView>,
    other: Seq<RequestView>,
)
    requires
        touch_distinct_identities(one),
        touch_distinct_identities(other),
        one.to_multiset() == other.to_multiset(),
    ensures
        registry_through(registry, one) == registry_through(registry, other),
{
    one.to_multiset_ensures();
    other.to_multiset_ensures();
    let left = registry_through(registry, one);
    let right = registry_through(registry, other);
    assert forall|identity: IdentityView|
        (#[trigger] left.dom().contains(identity)) == right.dom().contains(identity) && (
        left.dom().contains(identity) ==> left[identity] == right[identity]) by {
        if exists|i: int| 0 <= i < one.len() && touched(#[trigger] one[i]) == Some(identity) {
            let i = choose|i: int| 0 <= i < one.len() && touched(#[trigger] one[i]) == Some(identity);
            let request = one[i];
            assert(one.contains(request));
            assert(other.to_multiset().count(request) > 0);
            assert(other.contains(request));
            let j = choose|j: int| 0 <= j < other.len() && other[j] == request;
            lemma_one_request_decides(registry, one, i, identity);
            lemma_one_request_decides(registry, other, j, identity);
        } else if exists|j: int|
            0 <= j < other.len() && touched(#[trigger] other[j]) == Some(identity) {
            let j = choose|j: int|
                0 <= j < other.len() && touched(#[trigger] other[j]) == Some(identity);
            let request = other[j];
            assert(other.contains(request));
            assert(one.to_multiset().count(request) > 0);
            assert(one.contains(request));
            let i = choose|i: int| 0 <= i < one.len() && one[i] == request;
            assert(touched(one[i]) == Some(identity));
        } else {
            lemma_untouched_is_unchanged(registry, one, identity);
            lemma_untouched_is_unchanged(registry, other, identity);
        }
    }
    assert(left =~= right);
}

/// A lookup depends on the entry of its target alone: a request that
/// touches another identity does not change what it finds.
pub proof fn lemma_lookup_ignores_other_identities(
    registry: RegistryView,
    request: RequestView,
    requester: IdentityView,
    target: IdentityView,
)
    requires
        touched(request) != Some(target),
    ensures
        lookup_in(registry_after(registry, request), requester, target) == lookup_in(
            registry,
            requester,
            target,
        ),
{
}

/// Only a connect or a disconnect changes the registry: every other
/// request, and every payload that is no request, leaves it as it was. So
/// what is served without a change to the registry is served as it would
/// be by one who holds it exclusively.
pub proof fn lemma_only_mutations_change_the_registry(
    registry: RegistryView,
    decoding: Result<RequestView, DecodeError>,
)
    requires
        !needs_writer(decoding),
    ensures
        registry_past(registry, decoding) == registry,
        decoding matches Ok(request) ==> !mutates(request) && registry_after(registry, request)
            == registry,
{
}

/// A get never tells a target that is not registered from one that hides:
/// the responses are the same, and so are the bytes that are sent.
pub proof fn lemma_hidden_and_unknown_look_alike(
    absent: RegistryView,
    hiding: RegistryView,
    requester: IdentityView,
    target: IdentityView,
)
    requires
        lookup_in(absent, requester, target) == Visibility::Unknown,
        lookup_in(hiding, requester, target) == Visibility::NotVisible,
    ensures
        response_to(absent, RequestView::Get { requester, target }) == response_to(
            hiding,
            RequestView::Get { requester, target },
        ),
        reply_bytes(response_to(absent, RequestView::Get { requester, target })) == reply_bytes(
            response_to(hiding, RequestView::Get { requester, target }),
        ),
{
}

/// A message whose discriminator is `GET` and which has no member `target`
/// is malformed.
pub proof fn lemma_get_without_target_is_malformed(members: Seq<MemberView>)
    requires
        member_of(members, "target"@).is_none(),
    ensures
        request_named("GET"@, members) == Err::<RequestView, DecodeError>(DecodeError::Malformed),
{
    reveal_strlit("GET");
    reveal_strlit("PING");
    reveal_strlit("CONNECT");
    reveal_strlit("DISCONNECT");
    assert("GET"@.len() == 3);
    assert("PING"@.len() == 4);
    assert("CONNECT"@.len() == 7);
    assert("DISCONNECT"@.len() == 10);
    assert(identity_field(members, "target"@).is_none());
}

/// A discriminator that names none of the four requests is reported as
/// such, whatever else the message holds.
pub proof fn lemma_unknown_discriminator_is_reported(kind: Seq<char>, members: Seq<MemberView>)
    requires
        kind != "PING"@,
        kind != "CONNECT"@,
        kind != "DISCONNECT"@,
        kind != "GET"@,
    ensures
        request_named(kind, members) == Err::<RequestView, DecodeError>(
            DecodeError::UnknownType,
        ),
{
}

/// A payload that is no request leaves the registry as it was, and still
/// gets its reply: the report of the error.
pub proof fn lemma_bad_payload_changes_nothing(
    registry: RegistryView,
    message: Seq<u8>,
    error: DecodeError,
)
    requires
        decoded(message) == Err::<RequestView, DecodeError>(error),
    ensures
        registry_past(registry, decoded(message)) == registry,
        outcome_of(registry, decoded(message)) == ResponseView::Failed(ServerError::Decode(error)),
{
}

/// Every exchange ends: three steps after the bytes of a message have
/// arrived the phase is `Done`, with the one reply that the message gets,
/// and the registry is what the message made of it. `Done` then stays.
pub proof fn lemma_exchange_ends(registry: RegistryView, message: Seq<u8>)
    ensures
        ({
            let first = PhaseView::Decoding(message);
            let second = next_phase(registry, first);
            let registry_second = registry_next(registry, first);
            let third = next_phase(registry_second, second);
            let registry_third = registry_next(registry_second, second);
            let last = next_phase(registry_third, third);
            let registry_last = registry_next(registry_third, third);
            &&& last == PhaseView::Done(reply_bytes(outcome_of(registry, decoded(message))))
            &&& registry_last == registry_past(registry, decoded(message))
            &&& next_phase(registry_last, last) == last
            &&& registry_next(registry_last, last) == registry_last
        }),
{
}

} // verus!
