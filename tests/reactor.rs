use std::sync::atomic::{AtomicUsize, Ordering};
use std::sync::Arc;
use std::task::{Wake, Waker};
use std::time::Duration;

use reactor::actor::Actor;
use reactor::dispatch::Readiness;
use reactor::poller::Poller;
use reactor::registry::{Event, EventInfo, RegisterError, Registry};
use reactor::waker::WakeHandle;

struct Counter(AtomicUsize);

impl Wake for Counter {
    fn wake(self: Arc<Self>) {
        self.0.fetch_add(1, Ordering::SeqCst);
    }

    fn wake_by_ref(self: &Arc<Self>) {
        self.0.fetch_add(1, Ordering::SeqCst);
    }
}

fn counter() -> (Arc<Counter>, WakeHandle) {
    let c = Arc::new(Counter(AtomicUsize::new(0)));
    let w = Waker::from(c.clone());
    (c, WakeHandle::new(w))
}

fn count(c: &Arc<Counter>) -> usize {
    c.0.load(Ordering::SeqCst)
}

struct Source {
    info: EventInfo,
    set: mio::SetReadiness,
    reads: Arc<Counter>,
    writes: Arc<Counter>,
}

fn source() -> Source {
    let (registration, set) = mio::Registration::new2();
    let (reads, read_waker) = counter();
    let (writes, write_waker) = counter();
    Source {
        info: EventInfo { ev: Event::Registration(registration), read_waker, write_waker },
        set,
        reads,
        writes,
    }
}

fn ready(token: usize, readable: bool, writable: bool) -> Readiness {
    Readiness { token, readable, writable }
}

fn zero() -> Option<Duration> {
    Some(Duration::from_millis(0))
}

#[test]
fn read_ready_wakes_reader_only() {
    let mut poll = Poller::new().unwrap();
    let mut registry = Registry::new();
    let s = source();
    let t = match registry.register(s.info, &mut poll) {
        Ok(t) => t,
        Err(_) => panic!("registration refused"),
    };
    assert_eq!(registry.dispatch(&vec![ready(t, true, false)]), 1);
    assert_eq!(count(&s.reads), 1);
    assert_eq!(count(&s.writes), 0);
}

#[test]
fn write_ready_wakes_writer_only() {
    let mut poll = Poller::new().unwrap();
    let mut registry = Registry::new();
    let s = source();
    let t = registry.register(s.info, &mut poll).ok().unwrap();
    assert_eq!(registry.dispatch(&vec![ready(t, false, true)]), 1);
    assert_eq!(count(&s.reads), 0);
    assert_eq!(count(&s.writes), 1);
}

#[test]
fn read_and_write_ready_wakes_both_once() {
    let mut poll = Poller::new().unwrap();
    let mut registry = Registry::new();
    let s = source();
    let t = registry.register(s.info, &mut poll).ok().unwrap();
    assert_eq!(registry.dispatch(&vec![ready(t, true, true)]), 1);
    assert_eq!(count(&s.reads), 1);
    assert_eq!(count(&s.writes), 1);
}

#[test]
fn report_with_no_direction_still_counts() {
    let mut poll = Poller::new().unwrap();
    let mut registry = Registry::new();
    let s = source();
    let t = registry.register(s.info, &mut poll).ok().unwrap();
    assert_eq!(registry.dispatch(&vec![ready(t, false, false)]), 1);
    assert_eq!(count(&s.reads), 0);
    assert_eq!(count(&s.writes), 0);
}

#[test]
fn stale_report_after_deregister_is_skipped() {
    let mut actor = Actor::new().unwrap();
    let s = source();
    let t = actor.register(s.info).ok().unwrap();
    assert_eq!(actor.deregister(t).unwrap(), true);
    s.set.set_readiness(mio::Ready::readable()).unwrap();
    assert_eq!(actor.wait_all_events(zero()).unwrap(), 0);
    assert_eq!(count(&s.reads), 0);
    assert_eq!(count(&s.writes), 0);
}

#[test]
fn stale_token_in_batch_is_skipped() {
    let mut poll = Poller::new().unwrap();
    let mut registry = Registry::new();
    let s = source();
    let t = registry.register(s.info, &mut poll).ok().unwrap();
    let removed = registry.remove(t);
    assert!(removed.is_some());
    assert_eq!(registry.dispatch(&vec![ready(t, true, true)]), 0);
    assert_eq!(count(&s.reads), 0);
    assert_eq!(count(&s.writes), 0);
}

#[test]
fn unknown_tokens_skipped_known_counted() {
    let mut poll = Poller::new().unwrap();
    let mut registry = Registry::new();
    let a = source();
    let b = source();
    let ta = registry.register(a.info, &mut poll).ok().unwrap();
    let tb = registry.register(b.info, &mut poll).ok().unwrap();
    let batch = vec![ready(ta, true, false), ready(77, true, true), ready(tb, false, true), ready(ta, true, true)];
    assert_eq!(registry.dispatch(&batch), 3);
    assert_eq!(count(&a.reads), 2);
    assert_eq!(count(&a.writes), 1);
    assert_eq!(count(&b.reads), 0);
    assert_eq!(count(&b.writes), 1);
}

#[test]
fn zero_timeout_with_nothing_ready_returns_zero() {
    let mut actor = Actor::new().unwrap();
    let a = source();
    let b = source();
    actor.register(a.info).ok().unwrap();
    actor.register(b.info).ok().unwrap();
    assert_eq!(actor.wait_all_events(zero()).unwrap(), 0);
    assert_eq!(count(&a.reads) + count(&a.writes) + count(&b.reads) + count(&b.writes), 0);
}

#[test]
fn polled_read_readiness_wakes_reader() {
    let mut actor = Actor::new().unwrap();
    let a = source();
    let b = source();
    actor.register(a.info).ok().unwrap();
    actor.register(b.info).ok().unwrap();
    a.set.set_readiness(mio::Ready::readable()).unwrap();
    assert_eq!(actor.wait_all_events(zero()).unwrap(), 1);
    assert_eq!(count(&a.reads), 1);
    assert_eq!(count(&a.writes), 0);
    assert_eq!(count(&b.reads) + count(&b.writes), 0);
}

#[test]
fn polled_write_readiness_wakes_writer() {
    let mut actor = Actor::new().unwrap();
    let a = source();
    actor.register(a.info).ok().unwrap();
    a.set.set_readiness(mio::Ready::writable()).unwrap();
    assert_eq!(actor.wait_all_events(zero()).unwrap(), 1);
    assert_eq!(count(&a.reads), 0);
    assert_eq!(count(&a.writes), 1);
}

#[test]
fn deregister_twice_reports_absent() {
    let mut actor = Actor::new().unwrap();
    let s = source();
    let t = actor.register(s.info).ok().unwrap();
    assert_eq!(actor.deregister(t).unwrap(), true);
    assert_eq!(actor.deregister(t).unwrap(), false);
}

#[test]
fn deregister_unknown_token_is_not_an_error() {
    let mut actor = Actor::new().unwrap();
    assert_eq!(actor.deregister(5).unwrap(), false);
}

#[test]
fn tokens_issued_in_counter_order_and_distinct() {
    let mut poll = Poller::new().unwrap();
    let mut registry = Registry::new();
    let mut tokens = Vec::new();
    let mut keep = Vec::new();
    for _ in 0..16 {
        let s = source();
        tokens.push(registry.register(s.info, &mut poll).ok().unwrap());
        keep.push((s.set, s.reads, s.writes));
    }
    let expected: Vec<usize> = (0..16).collect();
    assert_eq!(tokens, expected);
}

#[test]
fn removed_token_not_reissued_at_once() {
    let mut poll = Poller::new().unwrap();
    let mut registry = Registry::new();
    let a = source();
    let b = source();
    let c = source();
    let ta = registry.register(a.info, &mut poll).ok().unwrap();
    let tb = registry.register(b.info, &mut poll).ok().unwrap();
    assert!(registry.remove(ta).is_some());
    let tc = registry.register(c.info, &mut poll).ok().unwrap();
    assert_eq!((ta, tb, tc), (0, 1, 2));
    assert!(registry.remove(ta).is_none());
    assert!(registry.remove(tb).is_some());
    assert!(registry.remove(tc).is_some());
}

#[test]
fn refused_source_records_nothing() {
    let other = mio::Poll::new().unwrap();
    let mut poll = Poller::new().unwrap();
    let (registration, _set) = mio::Registration::new2();
    other
        .register(&registration, mio::Token(3), mio::Ready::readable(), mio::PollOpt::edge())
        .unwrap();
    let (reads, read_waker) = counter();
    let (_writes, write_waker) = counter();
    let info = EventInfo { ev: Event::Registration(registration), read_waker, write_waker };
    let mut registry = Registry::new();
    match registry.register(info, &mut poll) {
        Err(RegisterError::Os(_)) => {},
        Err(RegisterError::Exhausted) => panic!("not exhausted"),
        Ok(_) => panic!("a second poll took the registration"),
    }
    assert_eq!(registry.dispatch(&vec![ready(0, true, true)]), 0);
    assert_eq!(count(&reads), 0);
    let s = source();
    assert_eq!(registry.register(s.info, &mut poll).ok().unwrap(), 1);
}

#[test]
fn udp_socket_registers_and_deregisters() {
    let mut actor = Actor::new().unwrap();
    let socket = mio::net::UdpSocket::bind(&"127.0.0.1:0".parse().unwrap()).unwrap();
    let (_reads, read_waker) = counter();
    let (writes, write_waker) = counter();
    let info = EventInfo { ev: Event::UdpSocket(socket), read_waker, write_waker };
    let t = actor.register(info).ok().unwrap();
    assert_eq!(t, 0);
    assert_eq!(actor.wait_all_events(Some(Duration::from_millis(200))).unwrap(), 1);
    assert_eq!(count(&writes), 1);
    assert_eq!(actor.deregister(t).unwrap(), true);
}

#[test]
fn event_info_registers_then_deregisters() {
    let mut poll = Poller::new().unwrap();
    let s = source();
    assert!(s.info.register(&mut poll, 4).is_ok());
    assert!(s.info.deregister(&mut poll).is_ok());
}
