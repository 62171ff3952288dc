use bottle::actor::Actor;
use bottle::demux::Demux;
use bottle::dispatch::{complete, settle};
use bottle::future::{Drive, State};
use bottle::layout::inner_data_offset_align;
use bottle::queue::Queue;
use bottle::scheduler::retain_mut;
use bottle::Output;

#[test]
fn idle_actor_runs_first_item_at_once() {
    let mut actor: Actor<u32, ()> = Actor::new(());
    assert!(!actor.is_busy());
    assert_eq!(actor.post_any(10), Some(10));
    assert!(actor.is_busy());
    assert_eq!(actor.queued_len(), 0);
}

#[test]
fn busy_actor_queues_in_arrival_order() {
    let mut actor: Actor<u32, ()> = Actor::new(());
    assert_eq!(actor.post_any(1), Some(1));
    assert_eq!(actor.post_any(2), None);
    assert_eq!(actor.post_any(3), None);
    assert_eq!(actor.queued_len(), 2);
    assert_eq!(actor.restart(), Some(2));
    assert!(actor.is_busy());
    assert_eq!(actor.restart(), Some(3));
    assert_eq!(actor.restart(), None);
    assert!(!actor.is_busy());
    assert_eq!(actor.post_any(4), Some(4));
}

#[test]
fn deferred_payload_is_built_before_messages() {
    // The constructor's item is admitted first; messages sent before it ran
    // wait behind it.
    let mut actor: Actor<&'static str, Vec<u32>> = Actor::uninit();
    assert!(!actor.is_ready());
    assert!(actor.data().is_none());
    assert_eq!(actor.post_any("construct"), Some("construct"));
    assert_eq!(actor.post_any("a1"), None);
    assert_eq!(actor.post_any("b1"), None);
    assert_eq!(actor.post_any("a2"), None);
    actor.init(Vec::new());
    assert!(actor.is_ready());
    let mut handled = Vec::new();
    while let Some(item) = actor.restart() {
        assert!(actor.is_ready());
        actor.data_mut().push(handled.len() as u32);
        handled.push(item);
    }
    assert_eq!(handled, vec!["a1", "b1", "a2"]);
    assert_eq!(actor.data().unwrap().len(), 3);
}

#[test]
fn slot_set_hands_out_both_waiters() {
    let mut slot: State<u32, &'static str, ()> = State::new();
    assert!(!slot.is_resolved());
    assert!(!slot.poll("outside"));
    assert!(matches!(slot.drive("driver"), Drive::Wait));
    let (w, d) = slot.set(5);
    assert_eq!(w, Some("outside"));
    assert_eq!(d, Some("driver"));
    assert!(slot.is_resolved());
    assert_eq!(slot.result(), Some(&5));
}

#[test]
fn slot_reads_same_answer_every_time() {
    let mut slot: State<String, u8, ()> = State::new();
    slot.set(String::from("done"));
    assert!(slot.poll(1));
    assert_eq!(slot.result().map(|s| s.as_str()), Some("done"));
    assert!(slot.poll(2));
    assert_eq!(slot.result().map(|s| s.as_str()), Some("done"));
    assert!(matches!(slot.drive(3), Drive::Done));
}

#[test]
fn slot_parks_and_completes_continuation() {
    let mut slot: State<u32, u8, Vec<u8>> = State::new();
    assert!(matches!(slot.drive(9), Drive::Wait));
    assert_eq!(slot.pending(vec![1]), Some(9));
    assert!(matches!(slot.drive(8), Drive::Run));
    slot.continuation_mut().push(2);
    assert_eq!(*slot.continuation_mut(), vec![1, 2]);
    assert!(!slot.poll(4));
    assert_eq!(slot.complete(11), Some(4));
    assert_eq!(slot.result(), Some(&11));
    assert!(matches!(slot.drive(8), Drive::Done));
}

#[test]
fn settle_answer_now_moves_actor_on() {
    let mut actor: Actor<u8, ()> = Actor::new(());
    let mut slot: State<u32, u8, ()> = State::new();
    slot.poll(1);
    assert_eq!(actor.post_any(1), Some(1));
    assert_eq!(actor.post_any(2), None);
    let s = settle(&mut actor, &mut slot, Output::Now(30));
    assert_eq!(s.wake, Some(1));
    assert_eq!(s.wake_driver, None);
    assert_eq!(s.next, Some(2));
    assert_eq!(slot.result(), Some(&30));
    assert!(actor.is_busy());
}

#[test]
fn settle_later_keeps_actor_busy() {
    let mut actor: Actor<u8, ()> = Actor::new(());
    let mut slot: State<u32, u8, &'static str> = State::new();
    slot.drive(6);
    assert_eq!(actor.post_any(1), Some(1));
    assert_eq!(actor.post_any(2), None);
    let s = settle(&mut actor, &mut slot, Output::Later("cont"));
    assert_eq!(s.wake, None);
    assert_eq!(s.wake_driver, Some(6));
    assert_eq!(s.next, None);
    assert!(actor.is_busy());
    assert_eq!(actor.queued_len(), 1);
    let done = complete(&mut actor, &mut slot, 8);
    assert_eq!(done.next, Some(2));
    assert_eq!(slot.result(), Some(&8));
}

#[test]
fn queue_pops_in_push_order() {
    let q: Queue<u32> = Queue::new();
    let waker = futures::task::noop_waker();
    assert_eq!(q.pop(waker.clone()), None);
    q.push(1);
    q.push(2);
    q.push(3);
    assert_eq!(q.pop(waker.clone()), Some(1));
    assert_eq!(q.pop(waker.clone()), Some(2));
    assert_eq!(q.pop(waker.clone()), Some(3));
    assert_eq!(q.pop(waker), None);
}

#[test]
fn retain_mut_keeps_changed_elements_in_order() {
    let mut v = vec![1, 2, 3, 4, 5, 6];
    retain_mut(&mut v, |x: i32| if x % 2 == 0 { Some(x * 10) } else { None });
    assert_eq!(v, vec![20, 40, 60]);
    let mut empty: Vec<i32> = Vec::new();
    retain_mut(&mut empty, |x: i32| Some(x));
    assert!(empty.is_empty());
}

#[test]
fn payload_offset_rounds_header_up() {
    assert_eq!(inner_data_offset_align(24, 8), 24);
    assert_eq!(inner_data_offset_align(20, 8), 24);
    assert_eq!(inner_data_offset_align(0, 16), 0);
    assert_eq!(inner_data_offset_align(17, 16), 32);
    assert_eq!(inner_data_offset_align(5, 1), 5);
}

#[test]
fn demux_subscribes_each_identity_once() {
    let mut d: Demux<&'static str> = Demux::new();
    assert!(d.subscribe(4, "a"));
    assert!(!d.subscribe(4, "b"));
    assert!(d.subscribe(5, "c"));
    assert_eq!(d.len(), 2);
    assert!(d.unsubscribe(4));
    assert!(!d.unsubscribe(4));
    assert_eq!(d.len(), 1);
    let seen = std::cell::RefCell::new(Vec::new());
    d.send(|h: &&'static str| {
        seen.borrow_mut().push(*h);
        true
    });
    assert_eq!(*seen.borrow(), vec!["c"]);
}

#[test]
fn demux_send_on_empty_set_delivers_nothing() {
    let mut d: Demux<u8> = Demux::new();
    let calls = std::cell::Cell::new(0);
    d.send(|_h: &u8| {
        calls.set(calls.get() + 1);
        true
    });
    assert_eq!(calls.get(), 0);
    assert_eq!(d.len(), 0);
}
