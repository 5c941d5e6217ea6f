//! Tests of the value, work, registry and pool components.

use eventloop::pool::Pool;
use eventloop::registry::Registry;
use eventloop::value::{EventKind, Js, RuntimeError};
use eventloop::work::fibonacci;

#[test]
fn js_into_string() {
    assert_eq!(Js::String("hi".to_string()).into_string(), Some("hi".to_string()));
    assert_eq!(Js::Undefined.into_string(), None);
    assert_eq!(Js::Int(3).into_string(), None);
}

#[test]
fn js_into_int() {
    assert_eq!(Js::Int(42).into_int(), Some(42));
    assert_eq!(Js::Undefined.into_int(), None);
    assert_eq!(Js::String("4".to_string()).into_int(), None);
}

#[test]
fn event_kind_labels() {
    assert_eq!(EventKind::FileRead.label(), "File read");
    assert_eq!(EventKind::Encrypt.label(), "Encrypt");
}

#[test]
fn fibonacci_exact_values() {
    assert_eq!(fibonacci(0), Some(0));
    assert_eq!(fibonacci(1), Some(1));
    assert_eq!(fibonacci(2), Some(1));
    assert_eq!(fibonacci(10), Some(55));
    assert_eq!(fibonacci(20), Some(6765));
}

#[test]
fn fibonacci_overflow_is_reported() {
    // The 200th Fibonacci number does not fit in a machine word.
    assert_eq!(fibonacci(200), None);
}

#[test]
fn event_binds_task_identity_and_kind() {
    let e = eventloop::work::Event::new(17u32, 5, EventKind::Encrypt);
    assert_eq!(e.task, 17);
    assert_eq!(e.callback_id, 5);
    assert_eq!(e.kind, EventKind::Encrypt);
}

#[test]
fn registry_register_then_take_exactly_once() {
    let mut r: Registry<u32> = Registry::new();
    let id = r.register(7);
    assert_eq!(id, 1);
    assert!(r.contains(id));
    assert_eq!(r.take(id), Some(7));
    assert!(!r.contains(id));
    assert_eq!(r.take(id), None);
    assert_eq!(r.len(), 0);
}

#[test]
fn registry_identities_are_distinct() {
    let mut r: Registry<u32> = Registry::new();
    let a = r.register(1);
    let b = r.register(2);
    let c = r.register(3);
    assert!(a != b && b != c && a != c);
    assert_eq!(r.len(), 3);
}

#[test]
fn registry_identities_wrap_around() {
    let mut r: Registry<u32> = Registry::starting_at(usize::MAX - 1);
    let a = r.register(1);
    let b = r.register(2);
    let c = r.register(3);
    assert_eq!(a, usize::MAX);
    assert_eq!(b, 0);
    assert_eq!(c, 1);
}

#[test]
fn registry_skips_identities_still_pending() {
    let mut r: Registry<u32> = Registry::starting_at(usize::MAX);
    r.restore(0, 10);
    r.restore(1, 11);
    // The counter wraps to 0; 0 and 1 are still pending, so the search
    // advances to the first free identity.
    let id = r.register(12);
    assert_eq!(id, 2);
    assert_eq!(r.take(0), Some(10));
    assert_eq!(r.take(1), Some(11));
    assert_eq!(r.take(2), Some(12));
}

#[test]
fn pool_is_a_lifo_stack() {
    let mut p = Pool::new(4);
    assert_eq!(p.acquire(), Ok(3));
    assert_eq!(p.acquire(), Ok(2));
    assert_eq!(p.acquire(), Ok(1));
    assert_eq!(p.acquire(), Ok(0));
    assert_eq!(p.acquire(), Err(RuntimeError::OutOfThreads));
    p.release(2);
    assert_eq!(p.acquire(), Ok(2));
}

#[test]
fn pool_tracks_idle_workers() {
    let mut p = Pool::new(2);
    assert!(p.is_idle(0));
    assert!(p.is_idle(1));
    assert!(!p.is_idle(2));
    let w = p.acquire().unwrap();
    assert_eq!(w, 1);
    assert!(!p.is_idle(1));
    assert!(p.is_idle(0));
    p.release(1);
    assert!(p.is_idle(1));
}

#[test]
fn pool_capacity_is_fixed() {
    let mut p = Pool::new(0);
    assert_eq!(p.worker_count(), 0);
    assert_eq!(p.acquire(), Err(RuntimeError::OutOfThreads));
}
