//! One-shot callback registry.
//!
//! The registry stores pending callbacks under unique integer identities.
//! Identities come from a monotonically wrapping counter; when the counter
//! laps into an identity that is still pending, the search advances until
//! a free identity is found.  A callback is handed out exactly once:
//! taking it removes it.

use std::collections::HashMap;
use vstd::prelude::*;
use vstd::set_lib::lemma_len_subset;

verus! {

broadcast use vstd::std_specs::hash::group_hash_axioms;

/// The identity that follows `x`: an increment that wraps to zero at the
/// end of the identity space.
pub open spec fn wrap_inc(x: usize) -> usize {
    if x == usize::MAX {
        0
    } else {
        (x + 1) as usize
    }
}

/// The `i`-th identity probed after `start`: `start + 1 + i`, wrapped
/// once around the identity space.  Meaningful for `i <= usize::MAX`.
pub open spec fn candidate(start: usize, i: nat) -> usize {
    if start + 1 + i <= usize::MAX {
        (start + 1 + i) as usize
    } else {
        (start + i - usize::MAX) as usize
    }
}

/// Probing distinct offsets within one lap of the identity space yields
/// distinct identities, even where the counter wraps around.
pub proof fn lemma_candidate_injective(start: usize, i: nat, j: nat)
    requires
        i < j <= usize::MAX,
    ensures
        candidate(start, i) != candidate(start, j),
{
}

fn next_identity(x: usize) -> (r: usize)
    ensures
        r == wrap_inc(x),
{
    if x == usize::MAX {
        0
    } else {
        x + 1
    }
}

/// A map holding strictly fewer entries than there are probe targets
/// cannot contain them all: some probe is free.
proof fn lemma_probe_free<T>(m: Map<usize, T>, start: usize, count: nat)
    requires
        m.dom().finite(),
        count <= usize::MAX,
        m.len() < count,
    ensures
        exists|j: nat| j < count && !m.contains_key(#[trigger] candidate(start, j)),
{
    if forall|j: nat| j < count ==> m.contains_key(#[trigger] candidate(start, j)) {
        let cands = Seq::new(count, |j: int| candidate(start, j as nat));
        assert forall|p: int, q: int| 0 <= p < q < count implies cands[p] != cands[q] by {
            lemma_candidate_injective(start, p as nat, q as nat);
        }
        assert(cands.no_duplicates());
        cands.unique_seq_to_set();
        assert forall|x: usize| cands.to_set().contains(x) implies m.dom().contains(x) by {
            let j = choose|j: int| 0 <= j < cands.len() && cands[j] == x;
            assert(m.contains_key(candidate(start, j as nat)));
        }
        lemma_len_subset(cands.to_set(), m.dom());
        assert(false);
    }
}

/// The registry: pending callbacks by identity, and the identity counter.
#[verifier::reject_recursive_types(T)]
pub struct Registry<T> {
    callbacks: HashMap<usize, T>,
    identity_token: usize,
}

impl<T> View for Registry<T> {
    type V = Map<usize, T>;

    /// The registry is the map from pending identities to their callbacks.
    closed spec fn view(&self) -> Map<usize, T> {
        self.callbacks@
    }
}

impl<T> Registry<T> {
    /// The current position of the identity counter.
    pub closed spec fn token(&self) -> usize {
        self.identity_token
    }

    /// The registered identities form a finite set.
    pub proof fn lemma_finite(&self)
        ensures
            self@.dom().finite(),
    {
    }

    /// An empty registry whose identity counter starts at zero.
    pub fn new() -> (r: Self)
        ensures
            r@ == Map::<usize, T>::empty(),
            r.token() == 0,
    {
        Registry { callbacks: HashMap::new(), identity_token: 0 }
    }

    /// An empty registry whose identity counter starts at `token`, so the
    /// first registration is assigned an identity following `token`.
    pub fn starting_at(token: usize) -> (r: Self)
        ensures
            r@ == Map::<usize, T>::empty(),
            r.token() == token,
    {
        Registry { callbacks: HashMap::new(), identity_token: token }
    }

    /// How many callbacks are pending.
    pub fn len(&self) -> (n: usize)
        ensures
            n == self@.len(),
    {
        self.callbacks.len()
    }

    /// Whether a callback is pending under `id`.
    pub fn contains(&self, id: usize) -> (b: bool)
        ensures
            b == self@.contains_key(id),
    {
        self.callbacks.contains_key(&id)
    }

    /// The first free identity after the counter, advancing the counter to it.
    fn find_free_identity(&mut self) -> (id: usize)
        requires
            old(self).callbacks@.len() < usize::MAX,
        ensures
            final(self).callbacks == old(self).callbacks,
            final(self).identity_token == id,
            !old(self)@.contains_key(id),
            exists|k: nat|
                k <= old(self)@.len() && id == candidate(old(self).token(), k) && (forall|j: nat|
                    j < k ==> old(self)@.contains_key(#[trigger] candidate(old(self).token(), j))),
    {
        let ghost start = self.identity_token;
        let n: usize = self.callbacks.len();
        let mut i: usize = 0;
        let mut ident: usize = next_identity(self.identity_token);
        loop
            invariant
                self.callbacks == old(self).callbacks,
                self.identity_token == start,
                start == old(self).identity_token,
                n == self.callbacks@.len(),
                n < usize::MAX,
                i <= n,
                ident == candidate(start, i as nat),
                forall|j: nat| j < i ==> self.callbacks@.contains_key(#[trigger] candidate(start, j)),
            decreases n - i,
        {
            if !self.callbacks.contains_key(&ident) {
                self.identity_token = ident;
                proof {
                    let k = i as nat;
                    assert(k <= old(self)@.len() && ident == candidate(old(self).token(), k) && (
                    forall|j: nat|
                        j < k ==> old(self)@.contains_key(
                            #[trigger] candidate(old(self).token(), j),
                        )));
                }
                return ident;
            }
            proof {
                assert(self.callbacks@.contains_key(candidate(start, i as nat)));
                if i == n {
                    lemma_probe_free(self.callbacks@, start, (n + 1) as nat);
                    let j = choose|j: nat|
                        j < n + 1 && !self.callbacks@.contains_key(#[trigger] candidate(start, j));
                    assert(self.callbacks@.contains_key(candidate(start, j)));
                    assert(false);
                }
            }
            i = i + 1;
            ident = next_identity(ident);
        }
    }

    /// Stores `cb` under a fresh identity and returns that identity: the
    /// first identity after the counter that is not already pending.
    pub fn register(&mut self, cb: T) -> (id: usize)
        requires
            old(self)@.len() < usize::MAX,
        ensures
            !old(self)@.contains_key(id),
            final(self)@ == old(self)@.insert(id, cb),
            final(self).token() == id,
            exists|k: nat|
                k <= old(self)@.len() && id == candidate(old(self).token(), k) && (forall|j: nat|
                    j < k ==> old(self)@.contains_key(#[trigger] candidate(old(self).token(), j))),
    {
        let id = self.find_free_identity();
        proof {
            let k = choose|k: nat|
                k <= old(self)@.len() && id == candidate(old(self).token(), k) && (forall|j: nat|
                    j < k ==> old(self)@.contains_key(#[trigger] candidate(old(self).token(), j)));
            assert(k <= old(self)@.len() && id == candidate(old(self).token(), k) && (forall|j: nat|
                j < k ==> old(self)@.contains_key(#[trigger] candidate(old(self).token(), j))));
        }
        self.callbacks.insert(id, cb);
        id
    }

    /// Stores `cb` under a caller-chosen identity that is not pending.
    pub fn restore(&mut self, id: usize, cb: T)
        requires
            !old(self)@.contains_key(id),
        ensures
            final(self)@ == old(self)@.insert(id, cb),
            final(self).token() == old(self).token(),
    {
        self.callbacks.insert(id, cb);
    }

    /// Removes and returns the callback pending under `id`, if any.
    /// A callback is handed out at most once: a second take of the same
    /// identity finds nothing.
    pub fn take(&mut self, id: usize) -> (r: Option<T>)
        ensures
            match r {
                Some(cb) => old(self)@.contains_key(id) && cb == old(self)@[id] && final(self)@
                    == old(self)@.remove(id),
                None => !old(self)@.contains_key(id) && final(self)@ == old(self)@,
            },
            final(self).token() == old(self).token(),
    {
        let r = self.callbacks.remove(&id);
        proof {
            if !old(self)@.contains_key(id) {
                assert(self.callbacks@ =~= old(self)@);
            }
        }
        r
    }
}

/// The registered map after the first `k` of a sequence of registrations.
pub open spec fn map_after<T>(m0: Map<usize, T>, ids: Seq<usize>, cbs: Seq<T>, k: int) -> Map<
    usize,
    T,
>
    decreases k,
{
    if k <= 0 {
        m0
    } else {
        map_after(m0, ids, cbs, k - 1).insert(ids[k - 1], cbs[k - 1])
    }
}

/// A sequence of registrations as the registry performs them: each
/// identity is free at the moment it is assigned.
pub open spec fn registration_trace<T>(m0: Map<usize, T>, ids: Seq<usize>, cbs: Seq<T>) -> bool {
    &&& ids.len() == cbs.len()
    &&& forall|k: int|
        0 <= k < ids.len() ==> !(#[trigger] map_after(m0, ids, cbs, k)).contains_key(ids[k])
}

proof fn lemma_map_after_contains<T>(
    m0: Map<usize, T>,
    ids: Seq<usize>,
    cbs: Seq<T>,
    k: int,
    l: int,
    id: usize,
)
    requires
        0 <= k <= l,
        map_after(m0, ids, cbs, k).contains_key(id),
    ensures
        map_after(m0, ids, cbs, l).contains_key(id),
    decreases l - k,
{
    if l > k {
        lemma_map_after_contains(m0, ids, cbs, k, l - 1, id);
    }
}

/// Identity uniqueness: any sequence of registrations, however long and
/// however often the counter wraps, yields pairwise distinct identities.
pub proof fn lemma_trace_identities_distinct<T>(m0: Map<usize, T>, ids: Seq<usize>, cbs: Seq<T>)
    requires
        registration_trace(m0, ids, cbs),
    ensures
        ids.no_duplicates(),
{
    assert forall|k: int, l: int| 0 <= k < l < ids.len() implies ids[k] != ids[l] by {
        assert(map_after(m0, ids, cbs, k + 1).contains_key(ids[k]));
        lemma_map_after_contains(m0, ids, cbs, k + 1, l, ids[k]);
        assert(!map_after(m0, ids, cbs, l).contains_key(ids[l]));
    }
}

/// The registered map after the first `k` of a sequence of deliveries,
/// each of which removes the callback it hands out.
pub open spec fn map_after_deliveries<T>(m0: Map<usize, T>, ids: Seq<usize>, k: int) -> Map<
    usize,
    T,
>
    decreases k,
{
    if k <= 0 {
        m0
    } else {
        map_after_deliveries(m0, ids, k - 1).remove(ids[k - 1])
    }
}

/// A sequence of deliveries as the loop performs them: each identity is
/// registered at the moment its callback is handed out.
pub open spec fn delivery_trace<T>(m0: Map<usize, T>, ids: Seq<usize>) -> bool {
    forall|k: int|
        0 <= k < ids.len() ==> (#[trigger] map_after_deliveries(m0, ids, k)).contains_key(ids[k])
}

proof fn lemma_map_after_deliveries_absent<T>(
    m0: Map<usize, T>,
    ids: Seq<usize>,
    k: int,
    l: int,
    id: usize,
)
    requires
        0 <= k <= l,
        !map_after_deliveries(m0, ids, k).contains_key(id),
    ensures
        !map_after_deliveries(m0, ids, l).contains_key(id),
    decreases l - k,
{
    if l > k {
        lemma_map_after_deliveries_absent(m0, ids, k, l - 1, id);
    }
}

/// Exactly-once invocation: in any sequence of deliveries, each of which
/// finds its callback registered and removes it, no identity is delivered
/// twice — every callback is invoked at most once, and only while it is
/// registered.
pub proof fn lemma_deliveries_distinct<T>(m0: Map<usize, T>, ids: Seq<usize>)
    requires
        delivery_trace(m0, ids),
    ensures
        ids.no_duplicates(),
{
    assert forall|k: int, l: int| 0 <= k < l < ids.len() implies ids[k] != ids[l] by {
        assert(!map_after_deliveries(m0, ids, k + 1).contains_key(ids[k]));
        lemma_map_after_deliveries_absent(m0, ids, k + 1, l, ids[k]);
        assert(map_after_deliveries(m0, ids, l).contains_key(ids[l]));
    }
}

} // verus!
