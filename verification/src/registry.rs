//! The registry: the authoritative mapping from identity to policy.
//!
//! Mutations take `&mut self` and lookups `&self`, so the borrow rules give
//! the readers-writer discipline: a caller that shares a registry between
//! connections puts it behind a lock and every operation is atomic.
//!
//! The entries stand in a hash map, under a digest of their identity. An
//! operation computes one digest and looks at the few entries that share
//! it; it never walks the whole registry.

use std::collections::HashMap;
use vstd::prelude::*;
use vstd::utf8::encode_utf8;
use crate::identity::{text_view, IdentityView, UserInfo};
use crate::policy::{admits, PolicyView, VisibilityKind};

verus! {

broadcast use vstd::std_specs::hash::group_hash_axioms;

/// What a lookup finds.
#[derive(Clone, Copy, Debug, PartialEq, Eq, Structural)]
pub enum Visibility {
    /// The target is registered and its policy admits the requester.
    Visible,
    /// The target is registered and its policy turns the requester away.
    NotVisible,
    /// The target is not registered.
    Unknown,
}

/// The mathematical value of a registry.
pub type RegistryView = Map<IdentityView, PolicyView>;

/// The outcome of a lookup of `target` on behalf of `requester`.
pub open spec fn lookup_in(
    registry: RegistryView,
    requester: IdentityView,
    target: IdentityView,
) -> Visibility {
    if !registry.dom().contains(target) {
        Visibility::Unknown
    } else if admits(registry[target], requester) {
        Visibility::Visible
    } else {
        Visibility::NotVisible
    }
}

/// Whether `requester` is shown `target`: an unregistered target and a
/// hidden one are the same to the outside.
pub open spec fn shown_in(
    registry: RegistryView,
    requester: IdentityView,
    target: IdentityView,
) -> bool {
    lookup_in(registry, requester, target) == Visibility::Visible
}

/// One registered identity with its policy.
struct Entry {
    info: UserInfo,
    visibility: VisibilityKind,
}

/// The registry of connected clients. It holds at most one policy per
/// identity.
pub struct Server {
    buckets: HashMap<u64, Vec<Entry>>,
}

/// The identity of the entry at `i`.
spec fn key_at(entries: Seq<Entry>, i: int) -> IdentityView {
    entries[i].info@
}

/// Whether `id` is among `entries`.
spec fn holds(entries: Seq<Entry>, id: IdentityView) -> bool {
    exists|i: int| 0 <= i < entries.len() && key_at(entries, i) == id
}

/// A place where `id` stands among `entries`.
spec fn place_of(entries: Seq<Entry>, id: IdentityView) -> int {
    choose|i: int| 0 <= i < entries.len() && key_at(entries, i) == id
}

/// Whether no identity stands twice among `entries`.
spec fn distinct(entries: Seq<Entry>) -> bool {
    forall|i: int, j: int|
        0 <= i < j < entries.len() ==> key_at(entries, i) != key_at(entries, j)
}

/// The mapping that `entries` spell out.
spec fn entries_map(entries: Seq<Entry>) -> RegistryView {
    Map::new(
        |id: IdentityView| holds(entries, id),
        |id: IdentityView| entries[place_of(entries, id)].visibility@,
    )
}

/// Among distinct entries, each is what the mapping says of its identity.
proof fn lemma_entry_at(entries: Seq<Entry>, i: int)
    requires
        distinct(entries),
        0 <= i < entries.len(),
    ensures
        entries_map(entries).dom().contains(entries[i].info@),
        entries_map(entries)[entries[i].info@] == entries[i].visibility@,
{
    let id = key_at(entries, i);
    assert(holds(entries, id));
    let p = place_of(entries, id);
    assert(0 <= p < entries.len() && key_at(entries, p) == id);
    assert(p == i);
}

/// The modulus of the digest: a prime below 2^32, so that a step never
/// overflows.
const MODULUS: u64 = 4294967291;

/// The digest after one more byte.
spec fn digest_step(state: u64, byte: u8) -> u64 {
    (((state % MODULUS) * 31 + byte + 1) % (MODULUS as int)) as u64
}

/// The digest after `bytes`, taken in their order.
spec fn digest_bytes(state: u64, bytes: Seq<u8>) -> u64
    decreases bytes.len(),
{
    if bytes.len() == 0 {
        state
    } else {
        digest_step(digest_bytes(state, bytes.drop_last()), bytes.last())
    }
}

/// The digest after an optional text: one byte says whether it is there.
spec fn digest_text(state: u64, text: Option<Seq<char>>) -> u64 {
    match text {
        Some(chars) => digest_bytes(digest_step(state, 1), encode_utf8(chars)),
        None => digest_step(state, 0),
    }
}

/// The digest of an identity. Equal identities have equal digests.
spec fn digest_of(id: IdentityView) -> u64 {
    digest_text(digest_text(0, id.username), id.address)
}

/// Takes one more byte into the digest.
fn step(state: u64, byte: u8) -> (next: u64)
    ensures
        next == digest_step(state, byte),
{
    ((state % MODULUS) * 31 + (byte as u64) + 1) % MODULUS
}

/// Takes an optional text into the digest.
fn digest_field(state: u64, text: &Option<String>) -> (next: u64)
    ensures
        next == digest_text(state, text_view(*text)),
{
    match text {
        Some(chars) => {
            let bytes = chars.as_str().as_bytes();
            let start = step(state, 1);
            let mut next = start;
            let mut i: usize = 0;
            assert(bytes@.take(0) =~= Seq::<u8>::empty());
            while i < bytes.len()
                invariant
                    i <= bytes@.len(),
                    next == digest_bytes(start, bytes@.take(i as int)),
                decreases bytes@.len() - i,
            {
                assert(bytes@.take(i + 1).drop_last() =~= bytes@.take(i as int));
                next = step(next, bytes[i]);
                i += 1;
            }
            assert(bytes@.take(i as int) =~= bytes@);
            next
        },
        None => step(state, 0),
    }
}

/// Computes the digest of an identity.
fn digest(info: &UserInfo) -> (hash: u64)
    ensures
        hash == digest_of(info@),
{
    digest_field(digest_field(0, &info.username), &info.address)
}

/// The entries that stand under the digest `hash`.
spec fn bucket_at(buckets: Map<u64, Vec<Entry>>, hash: u64) -> Seq<Entry> {
    if buckets.contains_key(hash) {
        buckets[hash]@
    } else {
        Seq::empty()
    }
}

/// The mapping that the buckets spell out: an identity is looked for
/// under its own digest.
spec fn buckets_map(buckets: Map<u64, Vec<Entry>>) -> RegistryView {
    Map::new(
        |id: IdentityView| holds(bucket_at(buckets, digest_of(id)), id),
        |id: IdentityView| entries_map(bucket_at(buckets, digest_of(id)))[id],
    )
}

/// Whether no identity stands twice under one digest.
spec fn buckets_distinct(buckets: Map<u64, Vec<Entry>>) -> bool {
    forall|hash: u64| #[trigger] buckets.contains_key(hash) ==> distinct(buckets[hash]@)
}

/// Changing the entries under one digest changes the registry as it
/// changes the map of those entries.
proof fn lemma_bucket_replaced(
    before: Map<u64, Vec<Entry>>,
    after: Map<u64, Vec<Entry>>,
    hash: u64,
)
    requires
        forall|other: u64| other != hash ==> bucket_at(after, other) == bucket_at(before, other),
    ensures
        forall|id: IdentityView|
            digest_of(id) != hash ==> (#[trigger] buckets_map(after).dom().contains(id))
                == buckets_map(before).dom().contains(id),
        forall|id: IdentityView|
            digest_of(id) != hash && #[trigger] buckets_map(after).dom().contains(id)
                ==> buckets_map(after)[id] == buckets_map(before)[id],
        forall|id: IdentityView|
            digest_of(id) == hash ==> (#[trigger] buckets_map(after).dom().contains(id))
                == entries_map(bucket_at(after, hash)).dom().contains(id),
        forall|id: IdentityView|
            digest_of(id) == hash && #[trigger] buckets_map(after).dom().contains(id)
                ==> buckets_map(after)[id] == entries_map(bucket_at(after, hash))[id],
{
}

impl View for Server {
    type V = RegistryView;

    closed spec fn view(&self) -> RegistryView {
        buckets_map(self.buckets@)
    }
}

impl Server {
    #[verifier::type_invariant]
    spec fn well_formed(&self) -> bool {
        buckets_distinct(self.buckets@)
    }

    /// An empty registry.
    pub fn new() -> (server: Server)
        ensures
            server@ == Map::<IdentityView, PolicyView>::empty(),
    {
        let server = Server { buckets: HashMap::new() };
        assert(server@ =~= Map::<IdentityView, PolicyView>::empty());
        server
    }

    /// Where `info` stands among `clients`, if it is there.
    fn position(clients: &Vec<Entry>, info: &UserInfo) -> (place: Option<usize>)
        ensures
            match place {
                Some(i) => i < clients@.len() && key_at(clients@, i as int) == info@,
                None => !holds(clients@, info@),
            },
    {
        let mut i: usize = 0;
        while i < clients.len()
            invariant
                i <= clients@.len(),
                forall|j: int| 0 <= j < i ==> key_at(clients@, j) != info@,
            decreases clients@.len() - i,
        {
            if clients[i].info.same_as(info) {
                return Some(i);
            }
            i += 1;
        }
        None
    }

    /// Registers `info` with `visibility`. A policy that `info` had before
    /// is discarded: the last write wins.
    pub fn connect(&mut self, info: UserInfo, visibility: VisibilityKind)
        ensures
            final(self)@ == old(self)@.insert(info@, visibility@),
    {
        proof {
            use_type_invariant(&*self);
        }
        let ghost start = self.buckets@;
        let ghost id = info@;
        let ghost policy = visibility@;
        let hash = digest(&info);
        let mut buckets: HashMap<u64, Vec<Entry>> = HashMap::new();
        core::mem::swap(&mut self.buckets, &mut buckets);
        let mut clients = match buckets.remove(&hash) {
            Some(found) => found,
            None => Vec::new(),
        };
        let ghost before = clients@;
        assert(before == bucket_at(start, hash));
        assert(distinct(before));
        match Self::position(&clients, &info) {
            Some(i) => {
                clients.set(i, Entry { info, visibility });
                proof {
                    let after = clients@;
                    assert forall|a: int, b: int| 0 <= a < b < after.len() implies key_at(after, a)
                        != key_at(after, b) by {
                        assert(key_at(after, a) == key_at(before, a));
                        assert(key_at(after, b) == key_at(before, b));
                    }
                    lemma_update(before, after, i as int, id, policy);
                }
            },
            None => {
                clients.push(Entry { info, visibility });
                proof {
                    let after = clients@;
                    assert forall|a: int, b: int| 0 <= a < b < after.len() implies key_at(after, a)
                        != key_at(after, b) by {
                        if b < before.len() {
                            assert(key_at(after, a) == key_at(before, a));
                            assert(key_at(after, b) == key_at(before, b));
                        } else {
                            assert(key_at(after, a) == key_at(before, a));
                            assert(!holds(before, id));
                        }
                    }
                    lemma_append(before, after, id, policy);
                }
            },
        }
        let ghost after = clients@;
        buckets.insert(hash, clients);
        proof {
            let end = buckets@;
            assert(bucket_at(end, hash) == after);
            assert forall|other: u64| other != hash implies bucket_at(end, other) == bucket_at(
                start,
                other,
            ) by {}
            lemma_bucket_replaced(start, end, hash);
            lemma_bucket_replaced(start, start, hash);
            assert(buckets_map(end) =~= buckets_map(start).insert(id, policy));
        }
        core::mem::swap(&mut self.buckets, &mut buckets);
    }

    /// Removes `info` from the registry. Removing an identity that is not
    /// registered changes nothing.
    pub fn disconnect(&mut self, info: &UserInfo)
        ensures
            final(self)@ == old(self)@.remove(info@),
    {
        proof {
            use_type_invariant(&*self);
        }
        let ghost start = self.buckets@;
        let hash = digest(info);
        let mut buckets: HashMap<u64, Vec<Entry>> = HashMap::new();
        core::mem::swap(&mut self.buckets, &mut buckets);
        let mut clients = match buckets.remove(&hash) {
            Some(found) => found,
            None => Vec::new(),
        };
        let ghost before = clients@;
        assert(before == bucket_at(start, hash));
        assert(distinct(before));
        match Self::position(&clients, info) {
            Some(i) => {
                clients.remove(i);
                proof {
                    let after = clients@;
                    assert forall|a: int, b: int| 0 <= a < b < after.len() implies key_at(after, a)
                        != key_at(after, b) by {
                        let first = if a < i { a } else { a + 1 };
                        let second = if b < i { b } else { b + 1 };
                        assert(key_at(after, a) == key_at(before, first));
                        assert(key_at(after, b) == key_at(before, second));
                    }
                    lemma_without(before, after, i as int);
                }
            },
            None => {
                assert(entries_map(before) =~= entries_map(before).remove(info@));
            },
        }
        let ghost after = clients@;
        if clients.len() > 0 {
            buckets.insert(hash, clients);
        }
        proof {
            let end = buckets@;
            assert(bucket_at(end, hash) =~= after);
            assert forall|other: u64| other != hash implies bucket_at(end, other) == bucket_at(
                start,
                other,
            ) by {}
            lemma_bucket_replaced(start, end, hash);
            lemma_bucket_replaced(start, start, hash);
            assert(buckets_map(end) =~= buckets_map(start).remove(info@));
        }
        core::mem::swap(&mut self.buckets, &mut buckets);
    }

    /// Resolves the policy of `target` against `requester`. A requester
    /// that asks for itself gets no special treatment.
    pub fn lookup(&self, requester: &UserInfo, target: &UserInfo) -> (found: Visibility)
        ensures
            found == lookup_in(self@, requester@, target@),
    {
        proof {
            use_type_invariant(self);
        }
        let hash = digest(target);
        match self.buckets.get(&hash) {
            Some(clients) => {
                assert(clients@ == bucket_at(self.buckets@, hash));
                match Self::position(clients, target) {
                    Some(i) => {
                        proof {
                            lemma_entry_at(clients@, i as int);
                        }
                        if clients[i].visibility.admits(requester) {
                            Visibility::Visible
                        } else {
                            Visibility::NotVisible
                        }
                    },
                    None => Visibility::Unknown,
                }
            },
            None => Visibility::Unknown,
        }
    }
}

/// Replacing the entry of an identity is an insertion into the mapping.
proof fn lemma_update(
    before: Seq<Entry>,
    after: Seq<Entry>,
    i: int,
    id: IdentityView,
    policy: PolicyView,
)
    requires
        distinct(before),
        distinct(after),
        0 <= i < before.len(),
        key_at(before, i) == id,
        after.len() == before.len(),
        after[i].info@ == id,
        after[i].visibility@ == policy,
        forall|j: int| 0 <= j < before.len() && j != i ==> after[j] == before[j],
    ensures
        entries_map(after) == entries_map(before).insert(id, policy),
{
    let left = entries_map(after);
    let right = entries_map(before).insert(id, policy);
    assert forall|k: IdentityView| left.dom().contains(k) == right.dom().contains(k) by {
        if holds(after, k) {
            let p = place_of(after, k);
            if p != i {
                assert(key_at(before, p) == k);
            }
        }
        if holds(before, k) {
            let p = place_of(before, k);
            assert(key_at(after, p) == k);
        }
        if k == id {
            assert(key_at(after, i) == k);
        }
    }
    assert forall|k: IdentityView| left.dom().contains(k) implies left[k] == right[k] by {
        let p = place_of(after, k);
        lemma_entry_at(after, p);
        if p != i {
            assert(key_at(before, p) == k);
            lemma_entry_at(before, p);
        }
    }
    assert(left =~= right);
}

/// Appending the entry of a new identity is an insertion into the mapping.
proof fn lemma_append(before: Seq<Entry>, after: Seq<Entry>, id: IdentityView, policy: PolicyView)
    requires
        distinct(before),
        distinct(after),
        !holds(before, id),
        after.len() == before.len() + 1,
        after[before.len() as int].info@ == id,
        after[before.len() as int].visibility@ == policy,
        forall|j: int| 0 <= j < before.len() ==> after[j] == before[j],
    ensures
        entries_map(after) == entries_map(before).insert(id, policy),
{
    let left = entries_map(after);
    let right = entries_map(before).insert(id, policy);
    let n = before.len() as int;
    assert forall|k: IdentityView| left.dom().contains(k) == right.dom().contains(k) by {
        if holds(after, k) {
            let p = place_of(after, k);
            if p != n {
                assert(key_at(before, p) == k);
            }
        }
        if holds(before, k) {
            let p = place_of(before, k);
            assert(key_at(after, p) == k);
        }
        if k == id {
            assert(key_at(after, n) == k);
        }
    }
    assert forall|k: IdentityView| left.dom().contains(k) implies left[k] == right[k] by {
        let p = place_of(after, k);
        lemma_entry_at(after, p);
        if p != n {
            assert(key_at(before, p) == k);
            lemma_entry_at(before, p);
        }
    }
    assert(left =~= right);
}

/// Taking out an entry is a removal from the mapping.
proof fn lemma_without(before: Seq<Entry>, after: Seq<Entry>, i: int)
    requires
        distinct(before),
        distinct(after),
        0 <= i < before.len(),
        after == before.remove(i),
    ensures
        entries_map(after) == entries_map(before).remove(before[i].info@),
{
    let id = key_at(before, i);
    let left = entries_map(after);
    let right = entries_map(before).remove(id);
    assert forall|k: IdentityView| left.dom().contains(k) == right.dom().contains(k) by {
        if holds(after, k) {
            let p = place_of(after, k);
            let origin = if p < i { p } else { p + 1 };
            assert(key_at(before, origin) == k);
        }
        if holds(before, k) && k != id {
            let p = place_of(before, k);
            let moved = if p < i { p } else { p - 1 };
            assert(key_at(after, moved) == k);
        }
    }
    assert forall|k: IdentityView| left.dom().contains(k) implies left[k] == right[k] by {
        let p = place_of(after, k);
        let origin = if p < i { p } else { p + 1 };
        lemma_entry_at(after, p);
        assert(key_at(before, origin) == k);
        lemma_entry_at(before, origin);
    }
    assert(left =~= right);
}

} // verus!
