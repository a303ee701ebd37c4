use soio::epoll_opt::PollOpt;
use soio::event::Events;
use soio::mpms_queue::{Queue, State};
use soio::poll::Poll;
use soio::ready::Ready;
use soio::token::Token;

#[test]
fn test() {
    let nthreads = 8;
    let nmsgs = 1000;
    let mut poll = Poll::new(1);
    let mut q: Queue<usize> = Queue::with_capacity(&mut poll, nthreads * nmsgs);
    assert_eq!(None, q.pop(&mut poll));

    for _ in 0..nthreads {
        for i in 0..nmsgs {
            assert!(q.push(&mut poll, i).is_ok());
        }
    }
    let mut total = 0;
    for _ in 0..nthreads {
        let mut i = 0;
        loop {
            match q.pop(&mut poll) {
                None => {}
                Some(_) => {
                    i += 1;
                    if i == nmsgs {
                        break;
                    }
                }
            }
        }
        assert_eq!(nmsgs, i);
        total += i;
    }
    assert_eq!(total, nthreads * nmsgs);
    assert_eq!(None, q.pop(&mut poll));
}

#[test]
fn event() {
    let mut poll = Poll::new(1);
    let mut events = Events::with_capacity(256);
    let token = Token(1);
    let mut queue: Queue<i32> = Queue::with_capacity(&mut poll, 16);
    queue.register(&mut poll, token, Ready::readable(), PollOpt::oneshot().bitor(PollOpt::edge())).unwrap();
    queue.push(&mut poll, 123).unwrap();
    let size = poll.poll(&mut events, None);
    assert!(size == 1);
}

#[test]
fn event2() {
    let mut poll = Poll::new(1);
    let mut events = Events::with_capacity(256);
    let token = Token(1);
    let mut queue: Queue<i32> = Queue::with_capacity(&mut poll, 16);
    queue.register(&mut poll, token, Ready::readable(), PollOpt::oneshot().bitor(PollOpt::edge())).unwrap();
    queue.push(&mut poll, 123).unwrap();
    queue.push(&mut poll, 456).unwrap();
    let mut rounds = 0;
    'out: loop {
        rounds += 1;
        assert!(rounds < 10);
        poll.poll(&mut events, None);
        for _ in events.to_vec() {
            if queue.pop(&mut poll).unwrap() == 456 {
                break 'out;
            }
        }
        queue.reregister(&mut poll, token, Ready::readable(), PollOpt::oneshot().bitor(PollOpt::edge())).unwrap();
    }
    assert_eq!(rounds, 2);
}

#[test]
fn bounded_queue_round_trip() {
    let mut poll = Poll::new(1);
    let mut q: Queue<u32> = Queue::with_capacity(&mut poll, 16);
    assert!(q.push(&mut poll, 123).is_ok());
    assert_eq!(q.pop(&mut poll), Some(123));
    assert!(q.push(&mut poll, 123).is_ok());
    assert!(q.push(&mut poll, 456).is_ok());
    assert_eq!(q.pop(&mut poll), Some(123));
    assert_eq!(q.pop(&mut poll), Some(456));
    assert_eq!(q.pop(&mut poll), None);
}

#[test]
fn ring_is_fifo_and_bounded() {
    for requested in [0usize, 1, 2, 3, 5, 8, 100] {
        let mut ring: State<usize> = State::with_capacity(requested);
        let cap = ring.capacity();
        assert!(cap >= requested && cap >= 2);
        assert!(cap.is_power_of_two());
        assert!(cap == 2 || cap < 2 * requested);
        for i in 0..cap {
            assert_eq!(ring.push(i * 10), Ok(()));
        }
        assert_eq!(ring.push(7777), Err(7777));
        for i in 0..cap {
            assert_eq!(ring.pop(), Some(i * 10));
        }
        assert_eq!(ring.pop(), None);
        // the next lap uses the same slots
        for i in 0..cap {
            assert_eq!(ring.push(i + 1), Ok(()));
        }
        assert_eq!(ring.pop(), Some(1));
        assert_eq!(ring.push(99), Ok(()));
        assert_eq!(ring.push(100), Err(100));
    }
}

#[test]
fn ring_capacity_rounding() {
    assert_eq!(State::<u8>::with_capacity(0).capacity(), 2);
    assert_eq!(State::<u8>::with_capacity(2).capacity(), 2);
    assert_eq!(State::<u8>::with_capacity(3).capacity(), 4);
    assert_eq!(State::<u8>::with_capacity(16).capacity(), 16);
    assert_eq!(State::<u8>::with_capacity(17).capacity(), 32);
}

#[test]
fn queue_readable_while_it_holds_items() {
    let mut poll = Poll::new(1);
    let mut events = Events::with_capacity(8);
    let token = Token(42);
    let mut queue: Queue<i32> = Queue::with_capacity(&mut poll, 4);
    queue.register(&mut poll, token, Ready::readable(), PollOpt::level()).unwrap();
    assert_eq!(poll.poll(&mut events, Some(0)), 0);

    queue.push(&mut poll, 1).unwrap();
    assert_eq!(queue.pending(), 1);
    assert_eq!(poll.poll(&mut events, Some(0)), 1);
    assert_eq!(events.get(0).unwrap().token(), token);
    assert!(events.get(0).unwrap().readiness().is_readable());

    assert_eq!(queue.pop(&mut poll), Some(1));
    assert_eq!(queue.pending(), 0);
    assert_eq!(poll.poll(&mut events, Some(0)), 0);
}

#[test]
fn queue_registered_after_push_reports_pending_items() {
    let mut poll = Poll::new(1);
    let mut events = Events::with_capacity(8);
    let mut queue: Queue<i32> = Queue::with_capacity(&mut poll, 4);
    queue.push(&mut poll, 5).unwrap();
    assert_eq!(poll.poll(&mut events, Some(0)), 0);
    queue.register(&mut poll, Token(3), Ready::readable(), PollOpt::edge()).unwrap();
    assert_eq!(poll.poll(&mut events, Some(0)), 1);
    assert_eq!(events.get(0).unwrap().token(), Token(3));
}

#[test]
fn queue_full_hands_value_back() {
    let mut poll = Poll::new(1);
    let mut queue: Queue<i32> = Queue::with_capacity(&mut poll, 2);
    assert_eq!(queue.push(&mut poll, 1), Ok(()));
    assert_eq!(queue.push(&mut poll, 2), Ok(()));
    assert_eq!(queue.push(&mut poll, 3), Err(3));
    assert_eq!(queue.pending(), 2);
    queue.deregister(&mut poll).unwrap();
}
