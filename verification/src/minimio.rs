//! The readiness multiplexer, modelled.
//!
//! The OS facility behind the runtime's watches (a BSD-style kernel event
//! queue) reports which of many armed interests have become ready.  The
//! kernel itself is outside what this library can reason about, so the
//! queue is modelled here as the sequence of armed one-shot interests:
//! arming appends an interest, and a poll is handed the identifiers of
//! the resources that have become ready — a fact only the platform
//! driver around the library can observe — and removes and returns every
//! armed interest for them.  One-shot semantics are visible in the
//! contracts: a polled-out interest is no longer armed.

use vstd::prelude::*;

verus! {

/// Filter value of a timer-expiry interest.
pub const EVFILT_TIMER: i16 = -7;

/// Filter value of a read-readiness interest.
pub const EVFILT_READ: i16 = -1;

/// Flag: add the interest to the queue.
pub const EV_ADD: u16 = 0x1;

/// Flag: enable the interest.
pub const EV_ENABLE: u16 = 0x4;

/// Flag: the interest fires at most once.
pub const EV_ONESHOT: u16 = 0x10;

/// One readiness interest, laid out as the kernel event structure:
/// a resource identifier, the kind of readiness awaited, flags, and a
/// datum (for a timer, its duration in milliseconds).
#[derive(Debug, Clone, Copy, PartialEq, Eq, Default)]
pub struct Kevent {
    pub ident: u64,
    pub filter: i16,
    pub flags: u16,
    pub fflags: u32,
    pub data: i64,
    pub udata: u64,
    pub ext: [u64; 2],
}

/// A one-shot timer-expiry interest of `timeout_ms` milliseconds on
/// resource identifier zero.
pub fn event_timeout(timeout_ms: i64) -> (r: Kevent)
    ensures
        r.ident == 0,
        r.filter == EVFILT_TIMER,
        r.flags == EV_ADD | EV_ENABLE | EV_ONESHOT,
        r.fflags == 0,
        r.data == timeout_ms,
        r.udata == 0,
        r.ext == [0u64, 0u64],
{
    Kevent {
        ident: 0,
        filter: EVFILT_TIMER,
        flags: EV_ADD | EV_ENABLE | EV_ONESHOT,
        fflags: 0,
        data: timeout_ms,
        udata: 0,
        ext: [0, 0],
    }
}

/// A one-shot read-readiness interest on file descriptor `fd`.
pub fn event_read(fd: i32) -> (r: Kevent)
    requires
        fd >= 0,
    ensures
        r.ident == fd as u64,
        r.filter == EVFILT_READ,
        r.flags == EV_ADD | EV_ENABLE | EV_ONESHOT,
        r.fflags == 0,
        r.data == 0,
        r.udata == 0,
        r.ext == [0u64, 0u64],
{
    Kevent {
        ident: fd as u64,
        filter: EVFILT_READ,
        flags: EV_ADD | EV_ENABLE | EV_ONESHOT,
        fflags: 0,
        data: 0,
        udata: 0,
        ext: [0, 0],
    }
}

/// A one-shot timer-expiry interest of `timer` milliseconds on resource
/// identifier one.
pub fn timeout_event(timer: i64) -> (r: Kevent)
    ensures
        r.ident == 1,
        r.filter == EVFILT_TIMER,
        r.flags == EV_ADD | EV_ENABLE | EV_ONESHOT,
        r.fflags == 0,
        r.data == timer,
        r.udata == 0,
        r.ext == [0u64, 0u64],
{
    Kevent {
        ident: 1,
        filter: EVFILT_TIMER,
        flags: EV_ADD | EV_ENABLE | EV_ONESHOT,
        fflags: 0,
        data: timer,
        udata: 0,
        ext: [0, 0],
    }
}

/// The readiness queue: the armed one-shot interests, in arming order.
pub struct EventQueue {
    armed: Vec<Kevent>,
}

impl View for EventQueue {
    type V = Seq<Kevent>;

    /// The queue is the sequence of armed interests.
    closed spec fn view(&self) -> Seq<Kevent> {
        self.armed@
    }
}

/// A fresh readiness queue with nothing armed.  Opening the model cannot
/// fail; the OS error path belongs to the platform driver outside the
/// library.
pub fn queue() -> (q: EventQueue)
    ensures
        q@ == Seq::<Kevent>::empty(),
{
    EventQueue { armed: Vec::new() }
}

/// Arms every interest of `event_list`, appending them to the queue.
///
/// Callers keep at most one armed interest per resource identifier: the
/// kernel facility coalesces re-registrations of an identifier, while
/// this model appends blindly, so a second interest armed for a resource
/// already watched would fire alongside the first on one readiness.
/// The scheduler upholds this by rejecting duplicate watches.
pub fn add_event(queue: &mut EventQueue, event_list: &[Kevent])
    ensures
        final(queue)@ == old(queue)@ + event_list@,
{
    let mut k: usize = 0;
    while k < event_list.len()
        invariant
            k <= event_list@.len(),
            queue.armed@ == old(queue)@ + event_list@.take(k as int),
        decreases event_list@.len() - k,
    {
        queue.armed.push(event_list[k]);
        proof {
            assert(event_list@.take(k + 1 as int) =~= event_list@.take(k as int).push(
                event_list@[k as int],
            ));
            assert(queue.armed@ =~= old(queue)@ + event_list@.take(k + 1 as int));
        }
        k = k + 1;
    }
    proof {
        assert(event_list@.take(event_list@.len() as int) =~= event_list@);
    }
}

/// The armed interests whose resource is among the ready identifiers.
pub open spec fn fired_of(armed: Seq<Kevent>, ready: Seq<u64>) -> Seq<Kevent> {
    armed.filter(|e: Kevent| ready.contains(e.ident))
}

/// The armed interests whose resource is not among the ready identifiers.
pub open spec fn remaining_of(armed: Seq<Kevent>, ready: Seq<u64>) -> Seq<Kevent> {
    armed.filter(|e: Kevent| !ready.contains(e.ident))
}

proof fn lemma_split_push(s: Seq<Kevent>, ready: Seq<u64>, e: Kevent)
    ensures
        fired_of(s.push(e), ready) == if ready.contains(e.ident) {
            fired_of(s, ready).push(e)
        } else {
            fired_of(s, ready)
        },
        remaining_of(s.push(e), ready) == if !ready.contains(e.ident) {
            remaining_of(s, ready).push(e)
        } else {
            remaining_of(s, ready)
        },
{
    reveal_with_fuel(Seq::filter, 2);
    assert(s.push(e).drop_last() =~= s);
    assert(s.push(e).last() == e);
}

/// Whether `ident` is among the ready identifiers.
fn contains_ident(ready: &[u64], ident: u64) -> (b: bool)
    ensures
        b == ready@.contains(ident),
{
    let mut k: usize = 0;
    while k < ready.len()
        invariant
            k <= ready@.len(),
            forall|j: int| 0 <= j < k ==> ready@[j] != ident,
        decreases ready@.len() - k,
    {
        if ready[k] == ident {
            return true;
        }
        k = k + 1;
    }
    false
}

/// One poll of the queue.  `ready` names the resources that have become
/// ready since the interests were armed; the poll removes every armed
/// interest for a ready resource and returns them, in arming order.
/// Interests whose resource is not ready stay armed; a returned interest
/// is gone from the queue and cannot fire again.
pub fn poll(queue: &mut EventQueue, ready: &[u64]) -> (fired: Vec<Kevent>)
    ensures
        fired@ == fired_of(old(queue)@, ready@),
        final(queue)@ == remaining_of(old(queue)@, ready@),
{
    let ghost armed0 = queue.armed@;
    let mut fired: Vec<Kevent> = Vec::new();
    let mut kept: Vec<Kevent> = Vec::new();
    let n = queue.armed.len();
    let mut i: usize = 0;
    proof {
        assert(armed0.take(0) =~= Seq::<Kevent>::empty());
        reveal_with_fuel(Seq::filter, 1);
    }
    while i < n
        invariant
            i <= n,
            n == queue.armed@.len(),
            queue.armed@ == armed0,
            fired@ == fired_of(armed0.take(i as int), ready@),
            kept@ == remaining_of(armed0.take(i as int), ready@),
        decreases n - i,
    {
        let e = queue.armed[i];
        if contains_ident(ready, e.ident) {
            fired.push(e);
        } else {
            kept.push(e);
        }
        proof {
            assert(armed0.take(i + 1 as int) =~= armed0.take(i as int).push(armed0[i as int]));
            lemma_split_push(armed0.take(i as int), ready@, armed0[i as int]);
        }
        i = i + 1;
    }
    proof {
        assert(armed0.take(n as int) =~= armed0);
    }
    queue.armed = kept;
    fired
}

} // verus!
