//! The event-loop scheduler.
//!
//! The scheduler owns the callback registry, the worker-pool free-list,
//! the watch map from resource identifiers to callback identities, and
//! the pending-operation counter that decides when the loop may
//! terminate.  It is a state machine: registrations and completions are
//! its transitions, each a verified function.  The threads, channels and
//! OS calls that produce completions live outside the library; they feed
//! the scheduler plain values (a resource identifier, a worker index and
//! callback identity) and invoke the callbacks it hands back.

use crate::pool::Pool;
use crate::registry::Registry;
use crate::value::RuntimeError;
use std::collections::HashMap;
use vstd::prelude::*;

verus! {

broadcast use vstd::std_specs::hash::group_hash_axioms;

/// Why a callback is pending: blocking work on the pool, or a readiness watch.
#[derive(Debug, Clone, Copy, PartialEq, Eq, Structural)]
pub enum PendingKind {
    Task,
    Watch,
}

/// The scheduler's state.
#[verifier::reject_recursive_types(T)]
pub struct Runtime<T> {
    registry: Registry<(T, PendingKind)>,
    pool: Pool,
    refs: usize,
    epoll_pending: usize,
    watches: HashMap<u64, usize>,
}

impl<T> Runtime<T> {
    /// The pending callbacks, by identity, each with its origin.
    pub closed spec fn pending(&self) -> Map<usize, (T, PendingKind)> {
        self.registry@
    }

    /// The pending-operation counter.
    pub closed spec fn refs_count(&self) -> usize {
        self.refs
    }

    /// The armed watches: resource identifier to callback identity.
    pub closed spec fn watch_map(&self) -> Map<u64, usize> {
        self.watches@
    }

    /// The count of outstanding watches, as reported to the driver.
    pub closed spec fn epoll_count(&self) -> usize {
        self.epoll_pending
    }

    /// The idle workers, stack bottom first.
    pub closed spec fn idle_workers(&self) -> Seq<usize> {
        self.pool.idle()
    }

    /// The fixed worker count.
    pub closed spec fn pool_size(&self) -> usize {
        self.pool.size()
    }

    /// Well-formed.  The pending-operation counter counts exactly the
    /// registered callbacks; the watch counter counts exactly the armed
    /// watches; distinct watches own distinct callbacks; every armed
    /// watch points at a pending watch callback; and every pending
    /// callback is owed to exactly one completion source: as many are
    /// pending as there are armed watches and busy workers together.
    pub closed spec fn wf(&self) -> bool {
        &&& self.pool.wf()
        &&& self.refs == self.registry@.len()
        &&& self.epoll_pending == self.watches@.len()
        &&& forall|i1: u64, i2: u64|
            self.watches@.contains_key(i1) && self.watches@.contains_key(i2) && #[trigger] self.watches@[i1]
                == #[trigger] self.watches@[i2] ==> i1 == i2
        &&& forall|ident: u64| #[trigger]
            self.watches@.contains_key(ident) ==> self.registry@.contains_key(self.watches@[ident])
                && self.registry@[self.watches@[ident]].1 == PendingKind::Watch
        &&& self.registry@.len() == self.watches@.len() + self.pool.busy()
    }

    /// A fresh scheduler with `pool_size` idle workers and nothing pending.
    pub fn new(pool_size: usize) -> (r: Self)
        ensures
            r.wf(),
            r.pending() == Map::<usize, (T, PendingKind)>::empty(),
            r.refs_count() == 0,
            r.watch_map() == Map::<u64, usize>::empty(),
            r.epoll_count() == 0,
            r.pool_size() == pool_size,
            r.idle_workers().len() == pool_size,
            forall|k: int| 0 <= k < pool_size ==> r.idle_workers()[k] == k,
    {
        Runtime {
            registry: Registry::new(),
            pool: Pool::new(pool_size),
            refs: 0,
            epoll_pending: 0,
            watches: HashMap::new(),
        }
    }

    /// The pending-operation counter: outstanding tasks and watches.
    pub fn pending_ops(&self) -> (n: usize)
        ensures
            n == self.refs_count(),
    {
        self.refs
    }

    /// Whether the loop may terminate: the counter reached zero.
    pub fn is_done(&self) -> (b: bool)
        ensures
            b == (self.refs_count() == 0),
    {
        self.refs == 0
    }

    /// Registers blocking work: stores `cb` under a fresh identity,
    /// counts the operation, and picks an idle worker for the task.
    /// Fails with the resource-exhaustion error, changing nothing,
    /// exactly when no worker is idle.  On success the caller hands the
    /// task, bound to the returned identity, to the returned worker.
    pub fn register_work(&mut self, cb: T) -> (r: Result<(usize, usize), RuntimeError>)
        requires
            old(self).wf(),
            old(self).pending().len() < usize::MAX,
        ensures
            final(self).wf(),
            final(self).pool_size() == old(self).pool_size(),
            match r {
                Ok((worker, id)) => {
                    &&& old(self).idle_workers().len() > 0
                    &&& worker == old(self).idle_workers().last()
                    &&& worker < old(self).pool_size()
                    &&& final(self).idle_workers() == old(self).idle_workers().drop_last()
                    &&& !old(self).pending().contains_key(id)
                    &&& final(self).pending() == old(self).pending().insert(
                        id,
                        (cb, PendingKind::Task),
                    )
                    &&& final(self).refs_count() == old(self).refs_count() + 1
                    &&& final(self).watch_map() == old(self).watch_map()
                    &&& final(self).epoll_count() == old(self).epoll_count()
                },
                Err(e) => {
                    &&& e == RuntimeError::OutOfThreads
                    &&& old(self).idle_workers().len() == 0
                    &&& final(self).pending() == old(self).pending()
                    &&& final(self).refs_count() == old(self).refs_count()
                    &&& final(self).watch_map() == old(self).watch_map()
                    &&& final(self).epoll_count() == old(self).epoll_count()
                    &&& final(self).idle_workers() == old(self).idle_workers()
                },
            },
    {
        proof {
            self.registry.lemma_finite();
        }
        match self.pool.acquire() {
            Err(e) => Err(e),
            Ok(worker) => {
                let id = self.registry.register((cb, PendingKind::Task));
                self.refs = self.refs + 1;
                Ok((worker, id))
            },
        }
    }

    /// Registers a readiness watch on resource `ident`: stores `cb` under
    /// a fresh identity, counts the operation, and records the resource's
    /// callback.  Fails, changing nothing, exactly when the resource is
    /// already watched.  On success the caller arms the interest with the
    /// multiplexer and tells the driver the returned outstanding count.
    pub fn register_watch(&mut self, ident: u64, cb: T) -> (r: Result<
        (usize, usize),
        RuntimeError,
    >)
        requires
            old(self).wf(),
            old(self).pending().len() < usize::MAX,
        ensures
            final(self).wf(),
            final(self).pool_size() == old(self).pool_size(),
            final(self).idle_workers() == old(self).idle_workers(),
            match r {
                Ok((id, outstanding)) => {
                    &&& !old(self).watch_map().contains_key(ident)
                    &&& !old(self).pending().contains_key(id)
                    &&& final(self).pending() == old(self).pending().insert(
                        id,
                        (cb, PendingKind::Watch),
                    )
                    &&& final(self).watch_map() == old(self).watch_map().insert(ident, id)
                    &&& final(self).refs_count() == old(self).refs_count() + 1
                    &&& final(self).epoll_count() == old(self).epoll_count() + 1
                    &&& outstanding == final(self).epoll_count()
                },
                Err(e) => {
                    &&& e == RuntimeError::DuplicateWatch
                    &&& old(self).watch_map().contains_key(ident)
                    &&& final(self).pending() == old(self).pending()
                    &&& final(self).refs_count() == old(self).refs_count()
                    &&& final(self).watch_map() == old(self).watch_map()
                    &&& final(self).epoll_count() == old(self).epoll_count()
                },
            },
    {
        proof {
            self.registry.lemma_finite();
            self.pool.lemma_idle_bounded();
        }
        if self.watches.contains_key(&ident) {
            Err(RuntimeError::DuplicateWatch)
        } else {
            let id = self.registry.register((cb, PendingKind::Watch));
            self.watches.insert(ident, id);
            self.refs = self.refs + 1;
            self.epoll_pending = self.epoll_pending + 1;
            Ok((id, self.epoll_pending))
        }
    }

    /// Delivers a watch completion: the resource `ident` became ready.
    /// Removes the watch and hands out its callback, to be invoked once
    /// with an absent value.  Fails, changing nothing, exactly when no
    /// watch is armed for the resource — in particular on any repeated
    /// readiness report for a watch already delivered.
    pub fn complete_watch(&mut self, ident: u64) -> (r: Result<(usize, T), RuntimeError>)
        requires
            old(self).wf(),
        ensures
            final(self).wf(),
            final(self).pool_size() == old(self).pool_size(),
            final(self).idle_workers() == old(self).idle_workers(),
            match r {
                Ok((id, cb)) => {
                    &&& old(self).watch_map().contains_key(ident)
                    &&& id == old(self).watch_map()[ident]
                    &&& old(self).pending().contains_key(id)
                    &&& cb == old(self).pending()[id].0
                    &&& old(self).pending()[id].1 == PendingKind::Watch
                    &&& final(self).pending() == old(self).pending().remove(id)
                    &&& final(self).watch_map() == old(self).watch_map().remove(ident)
                    &&& final(self).refs_count() == old(self).refs_count() - 1
                    &&& final(self).epoll_count() == old(self).epoll_count() - 1
                },
                Err(e) => {
                    &&& e == RuntimeError::UnknownEvent
                    &&& !old(self).watch_map().contains_key(ident)
                    &&& final(self).pending() == old(self).pending()
                    &&& final(self).refs_count() == old(self).refs_count()
                    &&& final(self).watch_map() == old(self).watch_map()
                    &&& final(self).epoll_count() == old(self).epoll_count()
                },
            },
    {
        proof {
            self.registry.lemma_finite();
        }
        let removed = self.watches.remove(&ident);
        match removed {
            None => {
                proof {
                    assert(self.watches@ =~= old(self).watches@);
                }
                Err(RuntimeError::UnknownEvent)
            },
            Some(id) => {
                match self.registry.take(id) {
                    Some((cb, _kind)) => {
                        self.refs = self.refs - 1;
                        self.epoll_pending = self.epoll_pending - 1;
                        Ok((id, cb))
                    },
                    None => {
                        // Unreachable: under well-formedness every armed
                        // watch owns a pending callback.
                        proof {
                            assert(false);
                        }
                        Err(RuntimeError::UnknownIdentity)
                    },
                }
            },
        }
    }

    /// Delivers a worker completion: `worker` finished the task whose
    /// callback is registered under `id`.  Hands out the callback, to be
    /// invoked once with the task's result, and returns the worker to the
    /// free-list.  Fails, changing nothing, when the worker is not busy,
    /// when nothing is registered under `id`, or when the identity
    /// belongs to a watch rather than a task.
    pub fn complete_work(&mut self, worker: usize, id: usize) -> (r: Result<T, RuntimeError>)
        requires
            old(self).wf(),
        ensures
            final(self).wf(),
            final(self).pool_size() == old(self).pool_size(),
            match r {
                Ok(cb) => {
                    &&& worker < old(self).pool_size()
                    &&& !old(self).idle_workers().contains(worker)
                    &&& old(self).pending().contains_key(id)
                    &&& old(self).pending()[id].1 == PendingKind::Task
                    &&& cb == old(self).pending()[id].0
                    &&& final(self).pending() == old(self).pending().remove(id)
                    &&& final(self).refs_count() == old(self).refs_count() - 1
                    &&& final(self).watch_map() == old(self).watch_map()
                    &&& final(self).epoll_count() == old(self).epoll_count()
                    &&& final(self).idle_workers() == old(self).idle_workers().push(worker)
                },
                Err(e) => {
                    &&& final(self).pending() == old(self).pending()
                    &&& final(self).refs_count() == old(self).refs_count()
                    &&& final(self).watch_map() == old(self).watch_map()
                    &&& final(self).epoll_count() == old(self).epoll_count()
                    &&& final(self).idle_workers() == old(self).idle_workers()
                    &&& (e == RuntimeError::WorkerNotBusy || e == RuntimeError::UnknownIdentity
                        || e == RuntimeError::NotATask)
                    &&& (e == RuntimeError::WorkerNotBusy <==> (worker >= old(self).pool_size()
                        || old(self).idle_workers().contains(worker)))
                    &&& (e == RuntimeError::UnknownIdentity <==> (worker < old(self).pool_size()
                        && !old(self).idle_workers().contains(worker) && !old(
                        self,
                    ).pending().contains_key(id)))
                    &&& (e == RuntimeError::NotATask <==> (worker < old(self).pool_size() && !old(
                        self,
                    ).idle_workers().contains(worker) && old(self).pending().contains_key(id)
                        && old(self).pending()[id].1 == PendingKind::Watch))
                },
            },
    {
        proof {
            self.registry.lemma_finite();
        }
        if worker >= self.pool.worker_count() || self.pool.is_idle(worker) {
            return Err(RuntimeError::WorkerNotBusy);
        }
        match self.registry.take(id) {
            None => Err(RuntimeError::UnknownIdentity),
            Some((cb, kind)) => match kind {
                PendingKind::Watch => {
                    self.registry.restore(id, (cb, PendingKind::Watch));
                    proof {
                        assert(self.registry@ =~= old(self).registry@);
                    }
                    Err(RuntimeError::NotATask)
                },
                PendingKind::Task => {
                    self.refs = self.refs - 1;
                    self.pool.release(worker);
                    Ok(cb)
                },
            },
        }
    }
}

/// Liveness: under well-formedness the loop's exit condition — the
/// pending-operation counter at zero — holds exactly when nothing
/// remains: no registered callback, no armed watch, and every worker
/// idle.  The loop neither exits while a callback is un-fired nor spins
/// on after the last completion.
pub proof fn lemma_terminated_means_drained<T>(rt: &Runtime<T>)
    requires
        rt.wf(),
    ensures
        (rt.refs_count() == 0) <==> (rt.pending().len() == 0 && rt.watch_map().len() == 0
            && rt.idle_workers().len() == rt.pool_size()),
{
    rt.pool.lemma_idle_bounded();
}

/// The pending-operation counter counts exactly the registered
/// callbacks, and the driver's outstanding count exactly the armed
/// watches: each completion decrements what its registration
/// incremented, so the counter never goes below zero.
pub proof fn lemma_counters_exact<T>(rt: &Runtime<T>)
    requires
        rt.wf(),
    ensures
        rt.refs_count() == rt.pending().len(),
        rt.epoll_count() == rt.watch_map().len(),
{
}

/// Watch one-shot semantics: delivering a watch removes both its mapping
/// and its callback, so however many further readiness reports arrive
/// for the same resource, no mapping and no callback remain — nothing
/// can be invoked a second time.
pub proof fn lemma_watch_fires_at_most_once<T>(
    watches: Map<u64, usize>,
    pending: Map<usize, (T, PendingKind)>,
    ident: u64,
)
    requires
        watches.contains_key(ident),
    ensures
        !watches.remove(ident).contains_key(ident),
        !pending.remove(watches[ident]).contains_key(watches[ident]),
{
}

} // verus!
