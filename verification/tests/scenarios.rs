//! Tests of the multiplexer model and of whole scheduler runs.

use std::cell::RefCell;
use std::rc::Rc;

use eventloop::minimio::{
    add_event, event_read, event_timeout, poll, queue, timeout_event, EVFILT_READ, EVFILT_TIMER,
    EV_ADD, EV_ENABLE, EV_ONESHOT,
};
use eventloop::runtime::Runtime;
use eventloop::value::{Js, RuntimeError};

type Callback = Box<dyn FnOnce(Js)>;

#[test]
fn event_constructors_build_exact_interests() {
    let t = event_timeout(3000);
    assert_eq!(t.ident, 0);
    assert_eq!(t.filter, EVFILT_TIMER);
    assert_eq!(t.flags, EV_ADD | EV_ENABLE | EV_ONESHOT);
    assert_eq!(t.data, 3000);

    let r = event_read(5);
    assert_eq!(r.ident, 5);
    assert_eq!(r.filter, EVFILT_READ);
    assert_eq!(r.flags, EV_ADD | EV_ENABLE | EV_ONESHOT);
    assert_eq!(r.data, 0);

    let e = timeout_event(1500);
    assert_eq!(e.ident, 1);
    assert_eq!(e.filter, EVFILT_TIMER);
    assert_eq!(e.data, 1500);
}

#[test]
fn poll_returns_only_ready_interests_once() {
    let mut q = queue();
    add_event(&mut q, &[event_read(1), event_read(2), event_read(3)]);
    let fired = poll(&mut q, &[2]);
    assert_eq!(fired.len(), 1);
    assert_eq!(fired[0].ident, 2);
    // The fired interest is one-shot: polling the same resource again
    // returns nothing.
    let again = poll(&mut q, &[2]);
    assert_eq!(again.len(), 0);
    let rest = poll(&mut q, &[1, 3]);
    assert_eq!(rest.len(), 2);
    assert_eq!(rest[0].ident, 1);
    assert_eq!(rest[1].ident, 3);
}

#[test]
fn two_file_reads_complete_and_loop_drains() {
    // Two independent reads of the same file against a pool of four
    // workers: both callbacks receive the content's length, and no
    // operation stays pending.
    let text = "Hello world, how are you?";
    let lengths: Rc<RefCell<Vec<usize>>> = Rc::new(RefCell::new(Vec::new()));

    let mut rt: Runtime<Callback> = Runtime::new(4);
    let l1 = lengths.clone();
    let (w1, id1) = rt
        .register_work(Box::new(move |v: Js| {
            l1.borrow_mut().push(v.into_string().unwrap().len());
        }))
        .unwrap();
    let l2 = lengths.clone();
    let (w2, id2) = rt
        .register_work(Box::new(move |v: Js| {
            l2.borrow_mut().push(v.into_string().unwrap().len());
        }))
        .unwrap();
    assert_ne!(w1, w2);
    assert_ne!(id1, id2);
    assert_eq!(rt.pending_ops(), 2);
    assert!(!rt.is_done());

    // The workers finish, in either order; here the second reports first.
    let cb2 = rt.complete_work(w2, id2).unwrap();
    cb2(Js::String(text.to_string()));
    assert_eq!(rt.pending_ops(), 1);
    let cb1 = rt.complete_work(w1, id1).unwrap();
    cb1(Js::String(text.to_string()));

    assert_eq!(*lengths.borrow(), vec![text.len(), text.len()]);
    assert_eq!(rt.pending_ops(), 0);
    assert!(rt.is_done());
}

#[test]
fn nested_timers_fire_in_order() {
    // An outer timer whose callback arms a nested timer: the nested one
    // fires strictly after the outer one, and the loop is not done until
    // both have fired.
    let mut q = queue();
    let mut rt: Runtime<&'static str> = Runtime::new(4);

    let outer = event_timeout(3000);
    let (outer_id, outstanding) = rt.register_watch(outer.ident, "outer").unwrap();
    add_event(&mut q, &[outer]);
    assert_eq!(outstanding, 1);
    assert!(!rt.is_done());

    // The outer timer expires.
    let fired = poll(&mut q, &[0]);
    assert_eq!(fired.len(), 1);
    let (id, cb) = rt.complete_watch(fired[0].ident).unwrap();
    assert_eq!(id, outer_id);
    assert_eq!(cb, "outer");

    // Its callback runs on the loop thread and arms the nested timer
    // before the loop re-checks the counter.
    let nested = event_timeout(1500);
    let (nested_id, _) = rt.register_watch(nested.ident, "nested").unwrap();
    add_event(&mut q, &[nested]);
    assert_ne!(outer_id, nested_id);
    assert!(!rt.is_done());

    // The nested timer expires.
    let fired = poll(&mut q, &[0]);
    assert_eq!(fired.len(), 1);
    let (id, cb) = rt.complete_watch(fired[0].ident).unwrap();
    assert_eq!(id, nested_id);
    assert_eq!(cb, "nested");
    assert!(rt.is_done());
}

#[test]
fn fifth_task_is_rejected_before_any_result() {
    // Five concurrent tasks against four workers: the fifth registration
    // fails with the resource-exhaustion error before any completion is
    // delivered, and the first four stay intact.
    let mut rt: Runtime<u32> = Runtime::new(4);
    let mut handles = Vec::new();
    for n in 0..4u32 {
        handles.push(rt.register_work(n).unwrap());
    }
    assert_eq!(rt.register_work(4), Err(RuntimeError::OutOfThreads));
    assert_eq!(rt.pending_ops(), 4);
    for (k, (w, id)) in handles.into_iter().enumerate() {
        assert_eq!(rt.complete_work(w, id), Ok(k as u32));
    }
    assert!(rt.is_done());
}

#[test]
fn watch_fires_at_most_once() {
    // However many readiness reports arrive for the same resource, the
    // callback is handed out a single time.
    let mut q = queue();
    let mut rt: Runtime<&'static str> = Runtime::new(4);
    let ev = event_read(7);
    rt.register_watch(ev.ident, "socket").unwrap();
    add_event(&mut q, &[ev]);

    // The OS reports the resource ready repeatedly.
    let fired = poll(&mut q, &[7, 7]);
    assert_eq!(fired.len(), 1);
    assert_eq!(rt.complete_watch(7).unwrap().1, "socket");
    assert_eq!(rt.complete_watch(7), Err(RuntimeError::UnknownEvent));
    assert_eq!(poll(&mut q, &[7]).len(), 0);
    assert!(rt.is_done());
}

#[test]
fn duplicate_watch_is_rejected() {
    let mut rt: Runtime<u32> = Runtime::new(2);
    rt.register_watch(9, 1).unwrap();
    assert_eq!(rt.register_watch(9, 2), Err(RuntimeError::DuplicateWatch));
    assert_eq!(rt.pending_ops(), 1);
}

#[test]
fn protocol_violations_are_typed() {
    let mut rt: Runtime<u32> = Runtime::new(2);
    let (w, id) = rt.register_work(5).unwrap();
    let (watch_id, _) = rt.register_watch(3, 6).unwrap();

    // A completion from an idle worker, or from beyond the pool.
    assert_eq!(rt.complete_work(0, id), Err(RuntimeError::WorkerNotBusy));
    assert_eq!(rt.complete_work(9, id), Err(RuntimeError::WorkerNotBusy));
    // A completion for an identity nobody registered.
    assert_eq!(rt.complete_work(w, id + 100), Err(RuntimeError::UnknownIdentity));
    // A worker completion for a watch's identity.
    assert_eq!(rt.complete_work(w, watch_id), Err(RuntimeError::NotATask));
    // Nothing was disturbed: both completions still deliver.
    assert_eq!(rt.complete_work(w, id), Ok(5));
    assert_eq!(rt.complete_watch(3), Ok((watch_id, 6)));
    assert!(rt.is_done());
}

#[test]
fn counter_decreases_by_one_per_completion() {
    let mut rt: Runtime<u32> = Runtime::new(3);
    let (w1, id1) = rt.register_work(1).unwrap();
    let (w2, id2) = rt.register_work(2).unwrap();
    rt.register_watch(11, 3).unwrap();
    assert_eq!(rt.pending_ops(), 3);
    rt.complete_watch(11).unwrap();
    assert_eq!(rt.pending_ops(), 2);
    rt.complete_work(w1, id1).unwrap();
    assert_eq!(rt.pending_ops(), 1);
    rt.complete_work(w2, id2).unwrap();
    assert_eq!(rt.pending_ops(), 0);
    assert!(rt.is_done());
}

#[test]
fn workers_are_reused_after_completion() {
    let mut rt: Runtime<u32> = Runtime::new(1);
    let (w, id) = rt.register_work(1).unwrap();
    assert_eq!(w, 0);
    assert_eq!(rt.register_work(2), Err(RuntimeError::OutOfThreads));
    rt.complete_work(w, id).unwrap();
    let (w2, id2) = rt.register_work(3).unwrap();
    assert_eq!(w2, 0);
    assert_eq!(rt.complete_work(w2, id2), Ok(3));
    assert!(rt.is_done());
}
