use bottle::actor::Actor;
use bottle::demux::Demux;
use bottle::dispatch::{complete, settle};
use bottle::future::State;
use bottle::Output;
use std::cell::RefCell;
use std::rc::Rc;

type Slot = State<u64, u32, u32>;

/// Runs message `item` on the counter actor: the handler increments the
/// counter and answers with the new value at once.
fn run_counter(actor: &mut Actor<usize, u64>, slots: &mut Vec<Slot>, item: usize) {
    let mut next = Some(item);
    while let Some(i) = next {
        let c = actor.data_mut();
        *c += 1;
        let reply = *c;
        let settled = settle(actor, &mut slots[i], Output::Now(reply));
        next = settled.next;
    }
}

#[test]
fn counter_reaches_hundred_from_four_senders() {
    let mut actor: Actor<usize, u64> = Actor::new(0);
    let mut slots: Vec<Slot> = (0..100).map(|_| State::new()).collect();
    // Four senders of 25 messages each, their sends interleaved.
    for round in 0..25 {
        for sender in 0..4 {
            let item = sender * 25 + round;
            if let Some(run) = actor.post_any(item) {
                run_counter(&mut actor, &mut slots, run);
            }
        }
    }
    assert_eq!(*actor.data().unwrap(), 100);
    let mut replies: Vec<u64> = slots.iter().map(|s| *s.result().unwrap()).collect();
    replies.sort();
    let expected: Vec<u64> = (1..=100).collect();
    assert_eq!(replies, expected);
}

#[test]
fn suspended_handlers_run_in_submission_order() {
    // Each handler suspends (awaiting another actor); on resumption it
    // increments the counter and answers with it.
    let mut actor: Actor<usize, u64> = Actor::new(0);
    let mut slots: Vec<Slot> = (0..4).map(|_| State::new()).collect();
    let mut order: Vec<usize> = Vec::new();
    let mut parked: Option<usize> = None;

    let start = |actor: &mut Actor<usize, u64>, slots: &mut Vec<Slot>, i: usize| {
        let settled = settle(actor, &mut slots[i], Output::Later(i as u32));
        assert!(settled.next.is_none());
        i
    };

    for i in 0..3 {
        if let Some(run) = actor.post_any(i) {
            parked = Some(start(&mut actor, &mut slots, run));
        }
    }
    if let Some(run) = actor.post_any(3) {
        parked = Some(start(&mut actor, &mut slots, run));
    }
    assert_eq!(parked, Some(0));
    assert!(actor.is_busy());

    while let Some(i) = parked.take() {
        assert_eq!(*slots[i].continuation_mut(), i as u32);
        let c = actor.data_mut();
        *c += 1;
        let reply = *c;
        order.push(i);
        let settled = complete(&mut actor, &mut slots[i], reply);
        if let Some(next) = settled.next {
            parked = Some(start(&mut actor, &mut slots, next));
        }
    }
    assert_eq!(order, vec![0, 1, 2, 3]);
    assert_eq!(*slots[3].result().unwrap(), 4);
    assert_eq!(*actor.data().unwrap(), 4);
    assert!(!actor.is_busy());
}

#[test]
fn broadcast_skips_and_prunes_dropped_subscriber() {
    let first = Rc::new(RefCell::new(Vec::<u32>::new()));
    let second = Rc::new(RefCell::new(Vec::<u32>::new()));
    let mut demux = Demux::new();
    assert!(demux.subscribe(1, Rc::downgrade(&first)));
    assert!(demux.subscribe(2, Rc::downgrade(&second)));
    drop(second);

    let deliveries = RefCell::new(0);
    let deliver = |h: &std::rc::Weak<RefCell<Vec<u32>>>| match h.upgrade() {
        Some(inbox) => {
            inbox.borrow_mut().push(7);
            *deliveries.borrow_mut() += 1;
            true
        },
        None => false,
    };
    demux.send(&deliver);
    assert_eq!(*deliveries.borrow(), 1);
    assert_eq!(*first.borrow(), vec![7]);
    assert_eq!(demux.len(), 1);

    demux.send(&deliver);
    assert_eq!(*deliveries.borrow(), 2);
    assert_eq!(demux.len(), 1);
}
