use soio::block_queue::BlockQueue;
use soio::epoll_opt::{EpollOpt, PollOpt};
use soio::event::{Event, Events};
use soio::poll::{validate_args, Poll, PollError};
use soio::poll_lock::{LockStep, PollLock};
use soio::ready::Ready;
use soio::selector_id::SelectorId;
use soio::token::Token;

#[test]
fn ready_flags() {
    let r = Ready::readable().bitor(Ready::hup());
    assert!(r.is_readable());
    assert!(r.is_hup());
    assert!(!r.is_writable());
    assert!(!r.is_error());
    assert!(!r.is_empty());
    assert!(Ready::empty().is_empty());
    assert_eq!(r.as_usize(), 0b1001);
    assert_eq!(Ready::writable().as_usize(), 2);
    assert_eq!(Ready::error().as_usize(), 4);
    assert!(r.contains(Ready::readable()));
    assert!(!r.contains(Ready::readable().bitor(Ready::writable())));
    let mut m = Ready::empty();
    m.insert(Ready::writable());
    m.insert(Ready::error());
    assert_eq!(m.as_usize(), 0b0110);
    m.remove(Ready::writable());
    assert_eq!(m, Ready::error());
    assert_eq!(r.bitand(Ready::readable()), Ready::readable());
    assert_eq!(r.bitxor(Ready::readable()), Ready::hup());
    assert_eq!(r.sub(Ready::hup()), Ready::readable());
    assert_eq!(r.not().as_usize(), 0b0110);
    assert_eq!(Ready::from(3usize), Ready::readable().bitor(Ready::writable()));
}

#[test]
fn options_flags() {
    let o = PollOpt::edge().bitor(PollOpt::oneshot());
    assert!(o.is_edge());
    assert!(o.is_oneshot());
    assert!(!o.is_level());
    assert_eq!(o.as_usize(), 0b101);
    let mut p = EpollOpt::empty();
    p.insert(EpollOpt::level());
    assert!(p.is_level());
    p.remove(EpollOpt::level());
    assert_eq!(p.as_usize(), 0);
    assert!(o.contains(EpollOpt::edge()));
    assert_eq!(o.bitand(EpollOpt::edge()), EpollOpt::edge());
    assert_eq!(o.bitxor(EpollOpt::edge()), EpollOpt::oneshot());
    assert_eq!(o.sub(EpollOpt::oneshot()), EpollOpt::edge());
    assert_eq!(EpollOpt::empty().not().as_usize(), usize::MAX);
    assert_eq!(EpollOpt::from(2usize), EpollOpt::level());
}

#[test]
fn token_conversions() {
    assert_eq!(Token::from(5usize), Token(5));
    assert_eq!(usize::from(Token(9)), 9);
}

#[test]
fn event_accessors() {
    let e = Event::new(Ready::writable(), Token(77));
    assert_eq!(e.readiness(), Ready::writable());
    assert_eq!(e.token(), Token(77));
    let mut evs = Events::with_capacity(2);
    assert!(evs.is_empty());
    assert_eq!(evs.capacity(), 2);
    evs.push(e);
    assert_eq!(evs.len(), 1);
    assert_eq!(evs.get(0), Some(e));
    assert_eq!(evs.get(1), None);
    evs.clear();
    assert!(evs.is_empty());
}

#[test]
fn validate_args_rules() {
    assert_eq!(validate_args(Token(usize::MAX), Ready::readable()), Err(PollError::InvalidToken));
    assert_eq!(validate_args(Token(1), Ready::empty()), Err(PollError::InvalidInterest));
    assert_eq!(validate_args(Token(1), Ready::hup()), Err(PollError::InvalidInterest));
    assert_eq!(validate_args(Token(1), Ready::writable()), Ok(()));
}

#[test]
fn selector_id_first_association_holds() {
    let first = Poll::new(3);
    let second = Poll::new(4);
    let mut id = SelectorId::new();
    assert_eq!(id.associate_selector(&first), Ok(()));
    assert_eq!(id.associate_selector(&first), Ok(()));
    assert_eq!(id.associate_selector(&second), Err(PollError::AlreadyAssociated));
    let mut copy = id.clone();
    assert_eq!(copy.associate_selector(&second), Err(PollError::AlreadyAssociated));
}

#[test]
fn poll_lock_protocol() {
    let mut lock = PollLock::new();
    assert!(lock.try_lock());
    assert!(!lock.try_lock());
    assert_eq!(lock.slow_step(false, true), LockStep::GiveUp);
    assert_eq!(lock.slow_step(false, false), LockStep::Wait);
    assert_eq!(lock.slow_step(true, false), LockStep::Wait);
    assert!(lock.unlock());
    assert!(!lock.try_lock());
    assert_eq!(lock.slow_step(true, false), LockStep::Acquired);
    assert!(!lock.unlock());
    assert!(lock.try_lock());
    assert!(!lock.unlock());
}

#[test]
fn block_queue_fifo() {
    let mut q: BlockQueue<u8> = BlockQueue::with_capacity(4);
    assert_eq!(q.try_pop(), None);
    q.push(1);
    q.push(2);
    assert_eq!(q.len(), 2);
    assert_eq!(q.pop(), 1);
    assert_eq!(q.try_pop(), Some(2));
    assert_eq!(q.try_pop(), None);
}
