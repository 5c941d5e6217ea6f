//! Units of blocking work.

use crate::value::EventKind;
use vstd::prelude::*;

verus! {

/// A unit of blocking work: the task payload, the identity of the
/// callback that receives its result, and the kind tag kept for
/// diagnostics.  The payload travels to a worker; the identity comes
/// back with the result.
#[derive(Debug, Clone, Copy)]
pub struct Event<W> {
    pub task: W,
    pub callback_id: usize,
    pub kind: EventKind,
}

impl<W> Event<W> {
    /// Binds a task payload to its callback identity and kind.
    pub fn new(task: W, callback_id: usize, kind: EventKind) -> (r: Self)
        ensures
            r.task == task,
            r.callback_id == callback_id,
            r.kind == kind,
    {
        Event { task, callback_id, kind }
    }
}

/// The Fibonacci numbers.
pub open spec fn fib(n: nat) -> nat
    decreases n,
{
    if n == 0 {
        0
    } else if n == 1 {
        1
    } else {
        fib((n - 1) as nat) + fib((n - 2) as nat)
    }
}

/// The Fibonacci numbers never decrease.
pub proof fn lemma_fib_monotonic(i: nat, j: nat)
    requires
        i <= j,
    ensures
        fib(i) <= fib(j),
    decreases j - i,
{
    if i < j {
        lemma_fib_monotonic(i, (j - 1) as nat);
    }
}

/// The `n`-th Fibonacci number — the computation behind the runtime's
/// demonstration "encrypt" task — or nothing where it does not fit in
/// a machine word.
pub fn fibonacci(n: usize) -> (r: Option<usize>)
    ensures
        match r {
            Some(v) => v == fib(n as nat),
            None => fib(n as nat) > usize::MAX,
        },
{
    if n == 0 {
        return Some(0);
    }
    let mut a: usize = 0;
    let mut b: usize = 1;
    let mut i: usize = 1;
    while i < n
        invariant
            1 <= i <= n,
            a == fib((i - 1) as nat),
            b == fib(i as nat),
        decreases n - i,
    {
        let c = match a.checked_add(b) {
            Some(c) => c,
            None => {
                proof {
                    lemma_fib_monotonic((i + 1) as nat, n as nat);
                }
                return None;
            },
        };
        a = b;
        b = c;
        i = i + 1;
    }
    Some(b)
}

} // verus!
