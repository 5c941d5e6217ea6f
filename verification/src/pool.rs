//! The worker pool's free-list.
//!
//! The pool has a fixed number of workers.  The free-list holds the
//! indices of the idle ones and is used as a LIFO stack: submitting work
//! pops any idle worker, a completion pushes the worker back.  There is
//! no queueing beyond the fixed worker count: acquiring a worker while
//! none is idle is the documented resource-exhaustion failure.

use crate::value::RuntimeError;
use vstd::prelude::*;
use vstd::set_lib::{lemma_int_range, lemma_len_subset, set_int_range};

verus! {

/// A sequence of distinct indices below `bound` cannot be longer than `bound`.
proof fn lemma_distinct_bounded_len(s: Seq<usize>, bound: usize)
    requires
        s.no_duplicates(),
        forall|k: int| 0 <= k < s.len() ==> s[k] < bound,
    ensures
        s.len() <= bound,
{
    let ints = s.map(|k: int, v: usize| v as int);
    assert(ints.no_duplicates());
    ints.unique_seq_to_set();
    assert forall|x: int| ints.to_set().contains(x) implies set_int_range(0, bound as int).contains(
        x,
    ) by {
        let k = choose|k: int| 0 <= k < ints.len() && ints[k] == x;
        assert(s[k] < bound);
    }
    lemma_int_range(0, bound as int);
    lemma_len_subset(ints.to_set(), set_int_range(0, bound as int));
}

/// The free-list of a fixed-size worker pool.
pub struct Pool {
    size: usize,
    available: Vec<usize>,
}

impl Pool {
    /// The fixed number of workers.
    pub closed spec fn size(&self) -> usize {
        self.size
    }

    /// The indices of the currently idle workers, stack bottom first.
    pub closed spec fn idle(&self) -> Seq<usize> {
        self.available@
    }

    /// How many workers are busy.
    pub open spec fn busy(&self) -> int {
        self.size() - self.idle().len()
    }

    /// Well-formed: every idle index names a worker and appears at most
    /// once, so a worker is either idle or busy, never both.
    pub closed spec fn wf(&self) -> bool {
        &&& self.available@.no_duplicates()
        &&& forall|k: int| 0 <= k < self.available@.len() ==> self.available@[k] < self.size
        &&& self.available@.len() <= self.size
    }

    /// A pool of `size` workers, all idle, the highest index on top.
    pub fn new(size: usize) -> (r: Self)
        ensures
            r.wf(),
            r.size() == size,
            r.idle().len() == size,
            forall|k: int| 0 <= k < size ==> r.idle()[k] == k,
    {
        let mut available: Vec<usize> = Vec::new();
        let mut i: usize = 0;
        while i < size
            invariant
                i <= size,
                available@.len() == i,
                forall|k: int| 0 <= k < i ==> available@[k] == k,
            decreases size - i,
        {
            available.push(i);
            i = i + 1;
        }
        proof {
            assert(available@.no_duplicates());
        }
        Pool { size, available }
    }

    /// The fixed number of workers.
    pub fn worker_count(&self) -> (n: usize)
        ensures
            n == self.size(),
    {
        self.size
    }

    /// A well-formed pool never holds more idle workers than it has workers.
    pub proof fn lemma_idle_bounded(&self)
        requires
            self.wf(),
        ensures
            self.idle().len() <= self.size(),
    {
    }

    /// Whether worker `w` is idle.
    pub fn is_idle(&self, w: usize) -> (b: bool)
        ensures
            b == self.idle().contains(w),
    {
        let mut k: usize = 0;
        while k < self.available.len()
            invariant
                k <= self.available@.len(),
                forall|j: int| 0 <= j < k ==> self.available@[j] != w,
            decreases self.available@.len() - k,
        {
            if self.available[k] == w {
                return true;
            }
            k = k + 1;
        }
        false
    }

    /// Pops an idle worker off the free-list, making it busy.  Fails with
    /// the resource-exhaustion error, changing nothing, exactly when no
    /// worker is idle.
    pub fn acquire(&mut self) -> (r: Result<usize, RuntimeError>)
        requires
            old(self).wf(),
        ensures
            final(self).wf(),
            final(self).size() == old(self).size(),
            match r {
                Ok(w) => old(self).idle().len() > 0 && w == old(self).idle().last()
                    && final(self).idle() == old(self).idle().drop_last()
                    && w < old(self).size(),
                Err(e) => e == RuntimeError::OutOfThreads && old(self).idle().len() == 0
                    && final(self).idle() == old(self).idle(),
            },
    {
        match self.available.pop() {
            Some(w) => Ok(w),
            None => Err(RuntimeError::OutOfThreads),
        }
    }

    /// Pushes a busy worker back onto the free-list, making it idle.
    pub fn release(&mut self, w: usize)
        requires
            old(self).wf(),
            w < old(self).size(),
            !old(self).idle().contains(w),
        ensures
            final(self).wf(),
            final(self).size() == old(self).size(),
            final(self).idle() == old(self).idle().push(w),
    {
        self.available.push(w);
        proof {
            assert forall|p: int, q: int|
                0 <= p < q < self.available@.len() implies self.available@[p]
                != self.available@[q] by {
                if q == self.available@.len() - 1 {
                    assert(!old(self).idle().contains(w));
                    assert(old(self).idle()[p] == self.available@[p]);
                }
            }
            lemma_distinct_bounded_len(self.available@, self.size);
        }
    }
}

} // verus!
