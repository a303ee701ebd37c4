use soio::epoll_opt::PollOpt;
use soio::event::{Event, Events};
use soio::poll::{Poll, PollError, Registration};
use soio::ready::Ready;
use soio::token::Token;

#[test]
fn test1() {
    let mut poll = Poll::new(1);
    let mut events = Events::with_capacity(128);

    let (_r, set) = Registration::new_prev(&mut poll, Token(123), Ready::readable(), PollOpt::edge());

    let n = poll.poll(&mut events, Some(0));
    assert_eq!(n, 0);

    set.set_readiness(&mut poll, Ready::readable()).unwrap();

    let n = poll.poll(&mut events, Some(0));
    assert_eq!(n, 1);

    assert_eq!(events.get(0).unwrap().token(), Token(123));
    assert_eq!(events.get(0).unwrap().readiness(), Ready::readable());
}

#[test]
fn set_readiness_before_register() {
    let mut poll = Poll::new(1);
    let mut events = Events::with_capacity(128);

    for _ in 0..5000 {
        let (r, set) = Registration::new(&mut poll);

        set.set_readiness(&mut poll, Ready::readable()).unwrap();

        poll.register(&r, Token(123), Ready::readable(), PollOpt::edge()).unwrap();

        let n = poll.poll(&mut events, None);
        assert_eq!(n, 1);
        assert_eq!(events.get(0).unwrap().token(), Token(123));
        r.release(&mut poll);
    }
}

#[test]
fn registration_new() {
    let mut poll = Poll::new(1);
    let (r, set) = Registration::new(&mut poll);
    poll.register(&r, Token(123), Ready::readable().bitor(Ready::writable()), PollOpt::edge()).unwrap();

    let mut events = Events::with_capacity(256);
    assert_eq!(poll.poll(&mut events, Some(0)), 0);

    set.set_readiness(&mut poll, Ready::readable()).unwrap();
    poll.poll(&mut events, None);

    let found = events.to_vec().iter().any(|e| e.token() == Token(123) && e.readiness().is_readable());
    assert!(found);
}

#[test]
fn registration_prev_new() {
    let mut poll = Poll::new(1);

    let (_r, set) = Registration::new_prev(&mut poll, Token(123), Ready::readable().bitor(Ready::writable()), PollOpt::edge());

    set.set_readiness(&mut poll, Ready::readable()).unwrap();

    let mut events = Events::with_capacity(256);
    poll.poll(&mut events, None);

    let found = events.to_vec().iter().any(|e| e.token() == Token(123) && e.readiness().is_readable());
    assert!(found);
}

#[test]
fn stress_single_threaded_poll() {
    const NUM_ATTEMPTS: usize = 30;
    const NUM_ITERS: usize = 500;
    const NUM_REGISTRATIONS: usize = 128;

    for _ in 0..NUM_ATTEMPTS {
        let mut poll = Poll::new(1);
        let mut events = Events::with_capacity(NUM_REGISTRATIONS);

        let registrations: Vec<_> = (0..NUM_REGISTRATIONS)
            .map(|i| Registration::new_prev(&mut poll, Token(i), Ready::readable(), PollOpt::edge()))
            .collect();

        let mut ready: Vec<_> = (0..NUM_REGISTRATIONS).map(|_| Ready::empty()).collect();

        for _ in 0..NUM_ITERS {
            for (i, &(_, ref set)) in registrations.iter().enumerate() {
                set.set_readiness(&mut poll, Ready::readable()).unwrap();
                ready[i] = Ready::readable();
            }

            let n = poll.poll(&mut events, Some(0));
            assert_eq!(n, NUM_REGISTRATIONS);
            for event in events.to_vec() {
                let i = event.token().0;
                assert_eq!(ready[i], Ready::readable());
                ready[i] = Ready::empty();
            }
            for r in &ready {
                assert!(r.is_empty());
            }
        }
    }
}

#[test]
fn stress_with_small_events_collection() {
    const N: usize = 1000;
    const ITER: usize = 10;

    let mut poll = Poll::new(1);
    let mut events = Events::with_capacity(4);

    let registrations: Vec<_> = (0..N)
        .map(|i| Registration::new_prev(&mut poll, Token(i), Ready::readable(), PollOpt::edge()))
        .collect();

    for _ in 0..ITER {
        for &(_, ref set) in registrations.iter() {
            set.set_readiness(&mut poll, Ready::readable()).unwrap();
        }
        let mut seen = vec![false; N];
        let mut total = 0;
        while total < N {
            let n = poll.poll(&mut events, Some(0));
            assert!(n <= 4);
            assert!(n > 0, "dead lock?");
            for e in events.to_vec() {
                assert!(!seen[e.token().0]);
                seen[e.token().0] = true;
            }
            total += n;
        }
        assert_eq!(poll.poll(&mut events, Some(0)), 0);
    }
}

#[test]
fn readiness_reported_once_set() {
    let mut poll = Poll::new(7);
    let mut events = Events::with_capacity(8);
    let (_r, set) = Registration::new_prev(&mut poll, Token(5), Ready::readable(), PollOpt::edge());
    assert_eq!(poll.poll(&mut events, Some(0)), 0);
    set.set_readiness(&mut poll, Ready::readable()).unwrap();
    assert_eq!(poll.poll(&mut events, Some(0)), 1);
    let e = events.get(0).unwrap();
    assert_eq!(e.token(), Token(5));
    assert_eq!(e.readiness().as_usize(), 1);
    assert!(events.get(1).is_none());
}

#[test]
fn register_rejects_reserved_token() {
    let mut poll = Poll::new(1);
    let (r, _set) = Registration::new(&mut poll);
    assert_eq!(
        poll.register(&r, Token(usize::MAX), Ready::readable(), PollOpt::edge()),
        Err(PollError::InvalidToken)
    );
}

#[test]
fn register_rejects_empty_interest() {
    let mut poll = Poll::new(1);
    let (r, _set) = Registration::new(&mut poll);
    assert_eq!(
        poll.register(&r, Token(1), Ready::error().bitor(Ready::hup()), PollOpt::edge()),
        Err(PollError::InvalidInterest)
    );
    assert_eq!(poll.register(&r, Token(1), Ready::writable(), PollOpt::edge()), Ok(()));
}

#[test]
fn register_rejects_handle_of_other_poll() {
    let mut first = Poll::new(1);
    let mut second = Poll::new(2);
    let (r, set) = Registration::new(&mut first);
    assert_eq!(
        second.register(&r, Token(1), Ready::readable(), PollOpt::edge()),
        Err(PollError::AlreadyAssociated)
    );
    assert_eq!(set.set_readiness(&mut second, Ready::readable()), Err(PollError::AlreadyAssociated));
    assert_eq!(second.deregister(&r), Err(PollError::AlreadyAssociated));
    assert_eq!(first.register(&r, Token(1), Ready::readable(), PollOpt::edge()), Ok(()));
}

#[test]
fn edge_oneshot_reports_once_until_rearmed() {
    let mut poll = Poll::new(1);
    let mut events = Events::with_capacity(16);
    let opts = PollOpt::edge().bitor(PollOpt::oneshot());
    let (r, set) = Registration::new_prev(&mut poll, Token(9), Ready::readable(), opts);

    set.set_readiness(&mut poll, Ready::readable()).unwrap();
    set.set_readiness(&mut poll, Ready::readable()).unwrap();
    assert_eq!(poll.poll(&mut events, Some(0)), 1);
    assert_eq!(events.get(0).unwrap().token(), Token(9));

    set.set_readiness(&mut poll, Ready::readable()).unwrap();
    assert_eq!(poll.poll(&mut events, Some(0)), 0);

    poll.reregister(&r, Token(9), Ready::readable(), opts).unwrap();
    assert_eq!(poll.poll(&mut events, Some(0)), 1);
    assert_eq!(events.get(0).unwrap().token(), Token(9));
    assert_eq!(poll.poll(&mut events, Some(0)), 0);
}

#[test]
fn level_redelivers_until_cleared() {
    let mut poll = Poll::new(1);
    let mut events = Events::with_capacity(16);
    let (_r, set) = Registration::new_prev(&mut poll, Token(3), Ready::readable(), PollOpt::level());
    set.set_readiness(&mut poll, Ready::readable()).unwrap();
    for _ in 0..5 {
        assert_eq!(poll.poll(&mut events, Some(0)), 1);
        assert_eq!(events.get(0).unwrap().token(), Token(3));
    }
    set.set_readiness(&mut poll, Ready::empty()).unwrap();
    assert_eq!(poll.poll(&mut events, Some(0)), 0);
    assert_eq!(poll.poll(&mut events, Some(0)), 0);
}

#[test]
fn every_signaled_token_is_reported() {
    let mut poll = Poll::new(1);
    let mut events = Events::with_capacity(64);
    let pairs: Vec<_> = (0..8)
        .map(|i| Registration::new_prev(&mut poll, Token(100 + i), Ready::readable(), PollOpt::edge()))
        .collect();
    // the poll thread announces that it is about to block
    assert_eq!(poll.selector_timeout(None), None);
    for (_, set) in &pairs {
        set.set_readiness(&mut poll, Ready::readable()).unwrap();
    }
    assert!(poll.take_wakeup());
    assert!(!poll.take_wakeup());
    assert_eq!(poll.poll(&mut events, Some(0)), 8);
    let mut tokens: Vec<usize> = events.to_vec().iter().map(|e| e.token().0).collect();
    tokens.sort();
    assert_eq!(tokens, (100..108).collect::<Vec<usize>>());
}

#[test]
fn repeated_signal_queues_node_once() {
    let mut poll = Poll::new(1);
    let mut events = Events::with_capacity(64);
    let (_r, set) = Registration::new_prev(&mut poll, Token(4), Ready::readable(), PollOpt::level());
    for _ in 0..10 {
        set.set_readiness(&mut poll, Ready::readable()).unwrap();
    }
    assert_eq!(poll.poll(&mut events, Some(0)), 1);
}

#[test]
fn selector_timeout_is_zero_when_work_is_queued() {
    let mut poll = Poll::new(1);
    assert_eq!(poll.selector_timeout(Some(0)), Some(0));
    assert_eq!(poll.selector_timeout(Some(50)), Some(50));
    let (_r, set) = Registration::new_prev(&mut poll, Token(1), Ready::readable(), PollOpt::edge());
    set.set_readiness(&mut poll, Ready::readable()).unwrap();
    assert_eq!(poll.selector_timeout(Some(50)), Some(0));
    assert_eq!(poll.selector_timeout(None), Some(0));
}

#[test]
fn complete_merges_selector_events() {
    let mut poll = Poll::new(1);
    let mut events = Events::with_capacity(3);
    let (_r, set) = Registration::new_prev(&mut poll, Token(2), Ready::readable(), PollOpt::edge());
    set.set_readiness(&mut poll, Ready::readable()).unwrap();
    let selected = vec![
        Event::new(Ready::writable(), Token(10)),
        Event::new(Ready::readable(), Token(usize::MAX)),
        Event::new(Ready::readable(), Token(11)),
        Event::new(Ready::readable(), Token(12)),
    ];
    assert_eq!(poll.complete(&mut events, &selected), 3);
    let tokens: Vec<usize> = events.to_vec().iter().map(|e| e.token().0).collect();
    assert_eq!(tokens, vec![10, 11, 12]);
    // the node did not fit and waits for the next cycle
    assert_eq!(poll.complete(&mut events, &Vec::new()), 1);
    assert_eq!(events.get(0).unwrap().token(), Token(2));
}

#[test]
fn deregister_stops_reports() {
    let mut poll = Poll::new(1);
    let mut events = Events::with_capacity(8);
    let (r, set) = Registration::new_prev(&mut poll, Token(6), Ready::readable(), PollOpt::level());
    poll.deregister(&r).unwrap();
    set.set_readiness(&mut poll, Ready::readable()).unwrap();
    assert_eq!(poll.poll(&mut events, Some(0)), 0);
    poll.register(&r, Token(8), Ready::readable(), PollOpt::level()).unwrap();
    assert_eq!(poll.poll(&mut events, Some(0)), 1);
    assert_eq!(events.get(0).unwrap().token(), Token(8));
    assert_eq!(set.readiness(&poll), Ok(Ready::readable()));
}

#[test]
fn dropped_registration_is_ignored() {
    let mut poll = Poll::new(1);
    let mut events = Events::with_capacity(8);
    let (r, set) = Registration::new_prev(&mut poll, Token(6), Ready::readable(), PollOpt::level());
    r.release(&mut poll);
    set.set_readiness(&mut poll, Ready::readable()).unwrap();
    assert_eq!(poll.poll(&mut events, Some(0)), 0);
    assert_eq!(set.readiness(&poll), Ok(Ready::empty()));
}
