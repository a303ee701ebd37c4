use soio::epoll_opt::EpollOpt;
use soio::event::Events;
use soio::poll::Poll;
use soio::queue::{PopError, PushError, Queue};
use soio::ready::Ready;
use soio::token::Token;

#[test]
fn bounded_queue_refuses_when_full() {
    let mut poll = Poll::new(1);
    let mut q = Queue::bounded(&mut poll, 2);
    assert_eq!(q.capacity(), Some(2));
    assert!(q.is_empty());
    assert_eq!(q.push(&mut poll, 10), Ok(()));
    assert_eq!(q.push(&mut poll, 20), Ok(()));
    assert!(q.is_full());
    assert_eq!(q.push(&mut poll, 30), Err(PushError::Full(30)));
    assert_eq!(q.len(), 2);
    assert_eq!(q.pending(), 2);
    assert_eq!(q.pop(&mut poll), Ok(10));
    assert_eq!(q.pop(&mut poll), Ok(20));
    assert_eq!(q.pop(&mut poll), Err(PopError::Empty));
    assert_eq!(q.pending(), 0);
}

#[test]
fn single_slot_queue() {
    let mut poll = Poll::new(1);
    let mut q = Queue::bounded(&mut poll, 1);
    assert_eq!(q.push(&mut poll, 1), Ok(()));
    assert_eq!(q.push(&mut poll, 2), Err(PushError::Full(2)));
    assert_eq!(q.pop(&mut poll), Ok(1));
}

#[test]
fn closed_queue_drains_then_reports_closed() {
    let mut poll = Poll::new(1);
    let mut q = Queue::unbounded(&mut poll);
    assert_eq!(q.capacity(), None);
    assert_eq!(q.push(&mut poll, 5), Ok(()));
    assert!(!q.is_closed());
    assert!(q.close());
    assert!(!q.close());
    assert!(q.is_closed());
    assert_eq!(q.push(&mut poll, 6), Err(PushError::Closed(6)));
    assert_eq!(q.pop(&mut poll), Ok(5));
    assert_eq!(q.pop(&mut poll), Err(PopError::Closed));
}

#[test]
fn queue_readiness_follows_items() {
    let mut poll = Poll::new(1);
    let mut events = Events::with_capacity(8);
    let mut q = Queue::unbounded(&mut poll);
    q.add(&mut poll, Token(11), Ready::readable(), EpollOpt::level()).unwrap();
    assert_eq!(poll.poll(&mut events, Some(0)), 0);
    for i in 0..100 {
        assert_eq!(q.push(&mut poll, i), Ok(()));
    }
    assert_eq!(poll.poll(&mut events, Some(0)), 1);
    assert_eq!(events.get(0).unwrap().token(), Token(11));
    for i in 0..100 {
        assert_eq!(q.pop(&mut poll), Ok(i));
    }
    assert_eq!(poll.poll(&mut events, Some(0)), 0);
    q.wake(&mut poll).unwrap();
    assert_eq!(poll.poll(&mut events, Some(0)), 1);
    q.modify(&mut poll, Token(12), Ready::readable(), EpollOpt::level()).unwrap();
    assert_eq!(poll.poll(&mut events, Some(0)), 1);
    assert_eq!(events.get(0).unwrap().token(), Token(12));
    q.delete(&mut poll).unwrap();
    assert_eq!(poll.poll(&mut events, Some(0)), 0);
}

#[test]
fn queue_added_with_items_is_readable() {
    let mut poll = Poll::new(1);
    let mut events = Events::with_capacity(8);
    let mut q = Queue::bounded(&mut poll, 4);
    assert_eq!(q.push(&mut poll, 1), Ok(()));
    q.add(&mut poll, Token(2), Ready::readable(), EpollOpt::edge()).unwrap();
    assert_eq!(poll.poll(&mut events, Some(0)), 1);
    assert_eq!(q.add(&mut poll, Token(usize::MAX), Ready::readable(), EpollOpt::edge()), Err(soio::poll::PollError::InvalidToken));
}
