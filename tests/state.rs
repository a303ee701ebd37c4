use soio::epoll_opt::EpollOpt;
use soio::readiness_queue::{Dequeue, ReadinessQueue};
use soio::ready::Ready;
use soio::state::ReadinessState;

#[test]
fn state_fields_are_independent() {
    let mut s = ReadinessState::new(Ready::readable().bitor(Ready::writable()), EpollOpt::edge());
    assert_eq!(s.readiness(), Ready::empty());
    assert_eq!(s.interest().as_usize(), 3);
    assert_eq!(s.poll_opt(), EpollOpt::edge());
    assert!(!s.is_queued());
    assert!(!s.is_dropped());
    s.set_readiness(Ready::writable().bitor(Ready::hup()));
    assert_eq!(s.readiness().as_usize(), 0b1010);
    assert_eq!(s.effective_readiness(), Ready::writable());
    assert_eq!(s.interest().as_usize(), 3);
    s.set_queued();
    assert!(s.is_queued());
    assert_eq!(s.readiness().as_usize(), 0b1010);
    s.set_dequeued();
    assert!(!s.is_queued());
    s.set_poll_opt(EpollOpt::level().bitor(EpollOpt::oneshot()));
    assert_eq!(s.poll_opt().as_usize(), 0b110);
    s.disarm();
    assert!(s.interest().is_empty());
    assert_eq!(s.effective_readiness(), Ready::empty());
    assert_eq!(s.poll_opt().as_usize(), 0b110);
}

#[test]
fn token_slots_rotate() {
    let mut s = ReadinessState::new(Ready::readable(), EpollOpt::edge());
    assert_eq!(s.token_read_pos(), 0);
    assert_eq!(s.token_write_pos(), 0);
    let next = s.next_token_pos();
    assert_eq!(next, 1);
    s.set_token_write_pos(next);
    assert_eq!(s.token_write_pos(), 1);
    assert_eq!(s.token_read_pos(), 0);
    assert_eq!(s.next_token_pos(), 2);
    s.update_token_read_pos();
    assert_eq!(s.token_read_pos(), 1);
    assert_eq!(s.next_token_pos(), 0);
    s.set_token_write_pos(2);
    assert_eq!(s.next_token_pos(), 0);
    assert_eq!(s.interest(), Ready::readable());
}

#[test]
fn flag_as_dropped_reports_who_enqueues() {
    let mut s = ReadinessState::new(Ready::readable(), EpollOpt::edge());
    assert!(s.flag_as_dropped());
    assert!(s.is_dropped());
    assert!(s.is_queued());
    assert!(!s.flag_as_dropped());
    let mut t = ReadinessState::new(Ready::readable(), EpollOpt::edge());
    t.set_queued();
    assert!(!t.flag_as_dropped());
}

#[test]
fn readiness_queue_until_stops_at_marker() {
    let mut q = ReadinessQueue::new();
    assert!(q.prepare_for_sleep());
    assert!(q.enqueue_node(4));
    assert!(!q.enqueue_node(5));
    assert!(!q.prepare_for_sleep());
    assert_eq!(q.dequeue_node(None), Dequeue::Data(4));
    assert!(!q.enqueue_node(4));
    assert_eq!(q.dequeue_node(Some(4)), Dequeue::Data(5));
    assert_eq!(q.dequeue_node(Some(4)), Dequeue::Empty);
    assert_eq!(q.len(), 1);
    assert_eq!(q.dequeue_node(None), Dequeue::Data(4));
    assert_eq!(q.dequeue_node(None), Dequeue::Empty);
}
