use upoll::entry;
use upoll::AtomicState;
use upoll::Event;
use upoll::PollOpt;
use upoll::Ready;
use upoll::ReadinessState;
use upoll::Token;

#[test]
fn state_word_packing() {
    let mut s = ReadinessState::new(Ready::readable(), PollOpt::edge());
    assert_eq!(s.readiness().0, 0);
    assert_eq!(s.interest().0, 1);
    assert_eq!(s.poll_opt().0, 1);
    assert_eq!(s.token_read_pos(), 0);
    assert_eq!(s.token_write_pos(), 0);
    assert!(!s.is_queued());
    assert!(!s.is_dropped());

    s.set_readiness(Ready::all());
    assert_eq!(s.readiness().0, 3);
    assert_eq!(s.effective_readiness().0, 1);
    assert_eq!(s.interest().0, 1);

    s.set_interest(Ready::writable());
    assert_eq!(s.interest().0, 2);
    assert_eq!(s.effective_readiness().0, 2);
    assert_eq!(s.readiness().0, 3);

    s.set_poll_opt(PollOpt::level());
    assert_eq!(s.poll_opt().0, 2);
    assert_eq!(s.interest().0, 2);

    s.set_queued();
    assert!(s.is_queued());
    assert_eq!(s.readiness().0, 3);
    s.set_dequeued();
    assert!(!s.is_queued());

    s.disarm();
    assert_eq!(s.interest().0, 0);
    assert_eq!(s.effective_readiness().0, 0);
}

#[test]
fn state_word_get_set() {
    let mut s = ReadinessState::new(Ready::none(), PollOpt::empty());
    s.set(5, 15, 4);
    assert_eq!(s.get(15, 4), 5);
    assert_eq!(s.get(15, 0), 0);
    s.set(2, 3, 14);
    assert_eq!(s.get(3, 14), 2);
    assert_eq!(s.get(15, 4), 5);
}

#[test]
fn token_slot_rotation() {
    // the chosen slot never collides with the read or the write slot
    let mut s = ReadinessState::new(Ready::readable(), PollOpt::edge());
    assert_eq!(s.next_token_pos(), 1);  // rd == wr == 0

    s.set_token_write_pos(1);
    assert_eq!(s.next_token_pos(), 2);  // rd 0, wr 1

    s.set_token_write_pos(2);
    assert_eq!(s.next_token_pos(), 1);  // rd 0, wr 2

    s.update_token_read_pos();
    assert_eq!(s.token_read_pos(), 2);
    assert_eq!(s.next_token_pos(), 0);  // rd == wr == 2
}

#[test]
fn atomic_state_compare_and_swap() {
    let mut a = AtomicState::new(Ready::readable(), PollOpt::edge());
    let before = a.load();

    let mut next = before;
    next.set_queued();

    // a swap against the stored word succeeds and reports the old word
    let prev = a.compare_and_swap(before, next);
    assert_eq!(prev, before);
    assert_eq!(a.load(), next);

    // a swap against a stale word leaves the state alone
    let prev = a.compare_and_swap(before, before);
    assert_eq!(prev, next);
    assert_eq!(a.load(), next);

    a.flag_as_dropped();
    assert!(a.load().is_dropped());
    assert!(a.load().is_queued());
    assert_eq!(a.load().interest().0, 1);
}

#[test]
fn ready_and_opt_sets() {
    assert_eq!(Ready::none().0, 0);
    assert!(Ready::readable().is_readable());
    assert!(!Ready::readable().is_writable());
    assert!(Ready::writable().is_writable());
    assert!(Ready::all().is_readable() && Ready::all().is_writable());
    assert_eq!(Ready::readable().union(Ready::writable()), Ready::all());
    assert_eq!(Ready::all().intersect(Ready::readable()), Ready::readable());
    assert!(Ready::all().contains(Ready::writable()));
    assert!(!Ready::readable().contains(Ready::writable()));
    assert!(Ready::none().is_none());
    assert!(Ready::readable().is_some());

    assert!(PollOpt::edge().is_edge());
    assert!(!PollOpt::edge().is_level());
    assert!(PollOpt::level().is_level());
    assert!(PollOpt::oneshot().is_oneshot());
    let both = PollOpt::edge().union(PollOpt::oneshot());
    assert!(both.is_edge() && both.is_oneshot());

    let e = Event::new(Ready::readable(), Token(9));
    assert_eq!(e.kind(), Ready::readable());
    assert_eq!(e.token(), Token(9));
}

#[test]
fn entry_lock_word_transitions() {
    // free with nobody waiting: the fast path takes the lock
    assert!(!entry::is_locked(0));
    assert_eq!(entry::acquire(0, false), 1);
    assert!(entry::is_locked(1));

    // a contending caller registers as a waiter
    assert_eq!(entry::add_waiter(1), 3);
    assert_eq!(entry::add_waiter(3), 5);

    // releasing with waiters present asks for a notification
    assert_eq!(entry::release(5), (4, true));

    // a notified waiter takes the lock and unregisters
    assert_eq!(entry::acquire(4, true), 3);

    // a waiter that times out just unregisters
    assert_eq!(entry::remove_waiter(3), 1);

    // releasing with nobody waiting notifies nobody
    assert_eq!(entry::release(1), (0, false));
}
