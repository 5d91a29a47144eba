use upoll::Events;
use upoll::Poll;
use upoll::PollOpt;
use upoll::Ready;
use upoll::Registration;
use upoll::SetReadiness;
use upoll::Token;

#[test]
fn smoke() {
    let mut poll = Poll::new();
    let mut events = Events::with_capacity(128);

    let (_r, set) = Registration::new(&mut poll, Token(0), Ready::readable(), PollOpt::edge());

    let n = poll.poll(&mut events, Some(0)).unwrap();
    assert_eq!(n, 0);

    set.set_readiness(&mut poll, Ready::readable()).unwrap();

    let n = poll.poll(&mut events, Some(0)).unwrap();
    assert_eq!(n, 1);

    assert_eq!(events.get(0).unwrap().token(), Token(0));
}

#[test]
fn single_producer_round_trip() {
    let mut poll = Poll::new();
    let mut events = Events::with_capacity(8);

    let (_r, set) = Registration::new(&mut poll, Token(0), Ready::readable(), PollOpt::edge());

    assert_eq!(poll.poll(&mut events, Some(0)).unwrap(), 0);

    set.set_readiness(&mut poll, Ready::readable()).unwrap();

    assert_eq!(poll.poll(&mut events, Some(0)).unwrap(), 1);
    let event = events.get(0).unwrap();
    assert_eq!(event.kind(), Ready::readable());
    assert_eq!(event.token(), Token(0));

    // edge-triggered: no further event without a new readiness update
    assert_eq!(poll.poll(&mut events, Some(0)).unwrap(), 0);
}

#[test]
fn oneshot_disarm() {
    let mut poll = Poll::new();
    let mut events = Events::with_capacity(8);

    let opts = PollOpt::edge().union(PollOpt::oneshot());
    let (_r, set) = Registration::new(&mut poll, Token(3), Ready::readable(), opts);

    set.set_readiness(&mut poll, Ready::readable()).unwrap();
    assert_eq!(poll.poll(&mut events, Some(0)).unwrap(), 1);
    assert_eq!(events.get(0).unwrap().token(), Token(3));

    // interest was zeroed by the oneshot delivery
    set.set_readiness(&mut poll, Ready::readable()).unwrap();
    assert_eq!(poll.poll(&mut events, Some(0)).unwrap(), 0);
}

#[test]
fn level_requeue() {
    let mut poll = Poll::new();
    let mut events = Events::with_capacity(8);

    let (_r, set) = Registration::new(&mut poll, Token(0), Ready::readable(), PollOpt::level());

    set.set_readiness(&mut poll, Ready::readable()).unwrap();
    assert_eq!(poll.poll(&mut events, Some(0)).unwrap(), 1);

    // without any new readiness update the level-triggered node re-fires
    assert_eq!(poll.poll(&mut events, Some(0)).unwrap(), 1);
    assert_eq!(events.get(0).unwrap().kind(), Ready::readable());

    // clearing readiness stops the stream
    set.set_readiness(&mut poll, Ready::none()).unwrap();
    assert_eq!(poll.poll(&mut events, Some(0)).unwrap(), 0);
}

#[test]
fn level_capacity_bound() {
    let mut poll = Poll::new();
    let mut events = Events::with_capacity(1);

    let (_r0, s0) = Registration::new(&mut poll, Token(0), Ready::readable(), PollOpt::level());
    let (_r1, s1) = Registration::new(&mut poll, Token(1), Ready::readable(), PollOpt::level());

    s0.set_readiness(&mut poll, Ready::readable()).unwrap();
    s1.set_readiness(&mut poll, Ready::readable()).unwrap();

    // a poll with capacity one returns exactly one event and terminates
    assert_eq!(poll.poll(&mut events, Some(0)).unwrap(), 1);
    assert_eq!(events.get(0).unwrap().token(), Token(0));

    // the other level-triggered source comes out on the next call
    assert_eq!(poll.poll(&mut events, Some(0)).unwrap(), 1);
    assert_eq!(events.get(0).unwrap().token(), Token(1));
}

#[test]
fn token_update() {
    let mut poll = Poll::new();
    let mut events = Events::with_capacity(8);

    let (r, set) = Registration::new(&mut poll, Token(7), Ready::readable(), PollOpt::edge());

    r.update(&mut poll, Token(42), Ready::readable(), PollOpt::edge()).unwrap();
    set.set_readiness(&mut poll, Ready::readable()).unwrap();

    assert_eq!(poll.poll(&mut events, Some(0)).unwrap(), 1);
    assert_eq!(events.get(0).unwrap().token(), Token(42));
}

#[test]
fn token_update_twice() {
    let mut poll = Poll::new();
    let mut events = Events::with_capacity(8);

    let (r, set) = Registration::new(&mut poll, Token(7), Ready::readable(), PollOpt::edge());

    // two rotations exercise a second token slot
    r.update(&mut poll, Token(42), Ready::readable(), PollOpt::edge()).unwrap();
    r.update(&mut poll, Token(99), Ready::readable(), PollOpt::edge()).unwrap();
    set.set_readiness(&mut poll, Ready::readable()).unwrap();

    assert_eq!(poll.poll(&mut events, Some(0)).unwrap(), 1);
    assert_eq!(events.get(0).unwrap().token(), Token(99));
}

#[test]
fn sleep_wake_handshake() {
    let mut poll = Poll::new();
    let mut events = Events::with_capacity(8);

    let (_r, set) = Registration::new(&mut poll, Token(5), Ready::readable(), PollOpt::edge());

    // the consumer announces it will block: the queue is empty
    assert!(poll.readiness_queue.prepare_for_sleep());
    assert!(!poll.readiness_queue.awakener.pending);

    // a producer that enqueues now must fire the awakener
    set.set_readiness(&mut poll, Ready::readable()).unwrap();
    assert!(poll.readiness_queue.awakener.pending);

    // the woken consumer drains the awakener and delivers the event
    assert_eq!(poll.poll(&mut events, Some(0)).unwrap(), 1);
    assert_eq!(events.get(0).unwrap().token(), Token(5));
    assert!(!poll.readiness_queue.awakener.pending);
}

#[test]
fn no_wakeup_when_awake() {
    let mut poll = Poll::new();

    let (_r, set) = Registration::new(&mut poll, Token(5), Ready::readable(), PollOpt::edge());

    // without the sleep marker a producer does not fire the awakener
    set.set_readiness(&mut poll, Ready::readable()).unwrap();
    assert!(!poll.readiness_queue.awakener.pending);
}

#[test]
fn drop_before_poll() {
    let mut poll = Poll::new();
    let mut events = Events::with_capacity(8);

    let (r, set) = Registration::new(&mut poll, Token(0), Ready::readable(), PollOpt::edge());

    // readiness pending, then both handles are given back before any poll
    set.set_readiness(&mut poll, Ready::readable()).unwrap();
    r.release(&mut poll);
    set.release(&mut poll);
    assert_eq!(poll.readiness_queue.nodes[0].ref_count, 1);

    // the consumer skips the dropped node and releases its reference
    assert_eq!(poll.poll(&mut events, Some(0)).unwrap(), 0);
    assert_eq!(poll.readiness_queue.nodes[0].ref_count, 0);

    // a second poll neither delivers anything nor touches the slot again
    assert_eq!(poll.poll(&mut events, Some(0)).unwrap(), 0);
    assert_eq!(poll.readiness_queue.nodes[0].ref_count, 0);
}

#[test]
fn deregister_stops_events() {
    let mut poll = Poll::new();
    let mut events = Events::with_capacity(8);

    let (r, set) = Registration::new(&mut poll, Token(0), Ready::readable(), PollOpt::edge());

    set.set_readiness(&mut poll, Ready::readable()).unwrap();
    r.deregister(&mut poll).unwrap();

    // interest is empty, so the queued node yields no event
    assert_eq!(poll.poll(&mut events, Some(0)).unwrap(), 0);
}

#[test]
fn update_against_other_poll() {
    let mut poll = Poll::new();
    let mut other = Poll::new();

    let (r, _set) = Registration::new(&mut poll, Token(0), Ready::readable(), PollOpt::edge());

    assert_eq!(
        r.update(&mut other, Token(1), Ready::readable(), PollOpt::edge()),
        Err(upoll::Error::InvalidPoll)
    );
    assert_eq!(r.update(&mut poll, Token(1), Ready::readable(), PollOpt::edge()), Ok(()));
}

#[test]
fn register_validates_arguments() {
    let mut poll = Poll::new();

    let (r, _set) = Registration::new(&mut poll, Token(0), Ready::readable(), PollOpt::edge());

    // the reserved token is refused
    assert_eq!(
        poll.register(&r, Token(usize::MAX), Ready::readable(), PollOpt::edge()),
        Err(upoll::Error::InvalidArgs)
    );
    // interest must include readable or writable
    assert_eq!(
        poll.register(&r, Token(1), Ready::none(), PollOpt::edge()),
        Err(upoll::Error::InvalidArgs)
    );
    // a valid registration goes through to the source
    assert_eq!(poll.register(&r, Token(1), Ready::readable(), PollOpt::edge()), Ok(()));
    assert_eq!(poll.reregister(&r, Token(2), Ready::writable(), PollOpt::level()), Ok(()));
    assert_eq!(poll.deregister(&r), Ok(()));
}

#[test]
fn clone_set_readiness() {
    let mut poll = Poll::new();
    let mut events = Events::with_capacity(8);

    let (_r, set) = Registration::new(&mut poll, Token(0), Ready::readable(), PollOpt::edge());
    assert_eq!(poll.readiness_queue.nodes[0].ref_count, 3);

    let set2 = set.clone_handle(&mut poll);
    assert_eq!(poll.readiness_queue.nodes[0].ref_count, 4);

    set2.set_readiness(&mut poll, Ready::readable()).unwrap();
    assert_eq!(poll.poll(&mut events, Some(0)).unwrap(), 1);

    assert_eq!(set.readiness(&poll), Ready::readable());
    set2.release(&mut poll);
    assert_eq!(poll.readiness_queue.nodes[0].ref_count, 3);
    set.set_readiness(&mut poll, Ready::writable()).unwrap();
    assert_eq!(set.readiness(&poll), Ready::writable());
}

#[test]
fn readiness_coalesces() {
    let mut poll = Poll::new();
    let mut events = Events::with_capacity(8);

    let (_r, set) = Registration::new(&mut poll, Token(0), Ready::all(), PollOpt::edge());

    // several updates between two polls yield one event with the last set
    set.set_readiness(&mut poll, Ready::readable()).unwrap();
    set.set_readiness(&mut poll, Ready::writable()).unwrap();
    set.set_readiness(&mut poll, Ready::all()).unwrap();

    assert_eq!(poll.poll(&mut events, Some(0)).unwrap(), 1);
    assert_eq!(events.get(0).unwrap().kind(), Ready::all());
}

#[test]
fn set_readiness_after_drop_is_ok() {
    let mut poll = Poll::new();
    let mut events = Events::with_capacity(8);

    let (r, set) = Registration::new(&mut poll, Token(0), Ready::readable(), PollOpt::edge());
    r.release(&mut poll);

    // no observer is left, the call reports success and does nothing
    assert_eq!(set.set_readiness(&mut poll, Ready::readable()), Ok(()));
    assert_eq!(poll.poll(&mut events, Some(0)).unwrap(), 0);
    set.release(&mut poll);
}

#[test]
fn stress_single_thread() {
    const NUM_ITERS: usize = 50;
    const NUM_REGISTRATIONS: usize = 128;

    let mut poll = Poll::new();
    let mut events = Events::with_capacity(128);

    let registrations: Vec<_> = (0..NUM_REGISTRATIONS)
        .map(|i| Registration::new(&mut poll, Token(i), Ready::readable(), PollOpt::edge()))
        .collect();

    let mut ready: Vec<Ready> = (0..NUM_REGISTRATIONS).map(|_| Ready::none()).collect();

    for _ in 0..NUM_ITERS {
        for (_, set) in registrations.iter() {
            set.set_readiness(&mut poll, Ready::readable()).unwrap();
            set.set_readiness(&mut poll, Ready::none()).unwrap();
            set.set_readiness(&mut poll, Ready::writable()).unwrap();
            set.set_readiness(&mut poll, Ready::readable().union(Ready::writable())).unwrap();
            set.set_readiness(&mut poll, Ready::none()).unwrap();
        }

        for (i, (r, _)) in registrations.iter().enumerate() {
            r.update(&mut poll, Token(i), Ready::writable(), PollOpt::edge()).unwrap();
        }

        poll.poll(&mut events, Some(0)).unwrap();
        let mut it = events.iter();
        while let Some(event) = it.next() {
            ready[event.token().0] = event.kind();
        }

        for (i, (r, _)) in registrations.iter().enumerate() {
            r.update(&mut poll, Token(i), Ready::readable(), PollOpt::edge()).unwrap();
        }
    }

    for (_, set) in registrations.iter() {
        set.set_readiness(&mut poll, Ready::readable()).unwrap();
    }

    // after quiescence one poll surfaces exactly one readable event per node
    let n = poll.poll(&mut events, Some(0)).unwrap();
    assert_eq!(n, NUM_REGISTRATIONS);
    let mut it = events.iter();
    while let Some(event) = it.next() {
        ready[event.token().0] = event.kind();
    }
    for r in ready {
        assert_eq!(r, Ready::readable());
    }
}

#[test]
fn events_iteration() {
    let mut poll = Poll::new();
    let mut events = Events::with_capacity(4);

    assert!(events.is_empty());
    assert_eq!(events.capacity(), 4);
    assert_eq!(events.get(0), None);

    let (_r0, s0) = Registration::new(&mut poll, Token(0), Ready::readable(), PollOpt::edge());
    let (_r1, s1) = Registration::new(&mut poll, Token(1), Ready::writable(), PollOpt::edge());

    s0.set_readiness(&mut poll, Ready::readable()).unwrap();
    s1.set_readiness(&mut poll, Ready::writable()).unwrap();

    assert_eq!(poll.poll(&mut events, Some(0)).unwrap(), 2);
    assert!(!events.is_empty());
    assert_eq!(events.len(), 2);

    let mut it = events.iter();
    let mut seen = Vec::new();
    while let Some(event) = it.next() {
        seen.push(event.token().0);
    }
    assert_eq!(seen.len(), 2);
    assert!(seen.contains(&0));
    assert!(seen.contains(&1));
    assert_eq!(it.next(), None);
}
