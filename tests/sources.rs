use soio::channel::ChannelCtl;
use soio::epoll_opt::PollOpt;
use soio::event::Events;
use soio::message_queue::MessagesQueue;
use soio::poll::{Poll, PollError};
use soio::ready::Ready;
use soio::timer::{Task, Timer, TimerAction, Timespec, IDLE_SLEEP};
use soio::token::Token;

fn task(data: u64, value: u64, interval: u64) -> Task {
    Task { data, timespec: Timespec { interval, value } }
}

#[test]
fn messages_queue_readiness() {
    let mut poll = Poll::new(1);
    let mut events = Events::with_capacity(8);
    let mut q: MessagesQueue<&str> = MessagesQueue::with_capacity(&mut poll, 4);
    q.register(&mut poll, Token(21), Ready::readable(), PollOpt::level()).unwrap();
    q.push(&mut poll, "a").unwrap();
    q.push(&mut poll, "b").unwrap();
    assert_eq!(poll.poll(&mut events, Some(0)), 1);
    assert_eq!(events.get(0).unwrap().token(), Token(21));
    assert_eq!(q.try_pop(&mut poll), Ok(Some("a")));
    assert_eq!(poll.poll(&mut events, Some(0)), 1);
    assert_eq!(q.try_pop(&mut poll), Ok(Some("b")));
    assert_eq!(poll.poll(&mut events, Some(0)), 0);
    assert_eq!(q.try_pop(&mut poll), Ok(None));
    q.push(&mut poll, "c").unwrap();
    assert_eq!(q.pop(), "c");
}

#[test]
fn messages_queue_of_other_poll() {
    let mut first = Poll::new(1);
    let mut second = Poll::new(2);
    let mut q: MessagesQueue<u8> = MessagesQueue::with_capacity(&mut first, 1);
    assert_eq!(q.push(&mut second, 1), Err(PollError::AlreadyAssociated));
    assert_eq!(q.try_pop(&mut second), Err(PollError::AlreadyAssociated));
    assert_eq!(q.try_pop(&mut first), Ok(Some(1)));
    assert_eq!(q.deregister(&mut second), Err(PollError::AlreadyAssociated));
    assert_eq!(q.reregister(&mut first, Token(1), Ready::readable(), PollOpt::edge()), Ok(()));
}

#[test]
fn timer_fires_due_tasks_in_time_order() {
    let mut poll = Poll::new(1);
    let mut events = Events::with_capacity(8);
    let mut timer = Timer::new(&mut poll);
    timer.register(&mut poll, Token(30), Ready::readable(), PollOpt::edge()).unwrap();
    assert_eq!(timer.tick(&mut poll, 0), TimerAction::Sleep(IDLE_SLEEP));

    timer.insert(task(1, 300, 0));
    timer.insert(task(2, 100, 0));
    timer.insert(task(3, 200, 0));
    assert_eq!(timer.tick(&mut poll, 50), TimerAction::Sleep(50));
    assert_eq!(timer.tick(&mut poll, 250), TimerAction::Fired);
    assert_eq!(timer.tick(&mut poll, 250), TimerAction::Fired);
    assert_eq!(timer.tick(&mut poll, 250), TimerAction::Sleep(50));

    assert_eq!(poll.poll(&mut events, Some(0)), 1);
    assert_eq!(events.get(0).unwrap().token(), Token(30));
    assert_eq!(timer.try_pop(&mut poll).unwrap().unwrap().data, 2);
    assert_eq!(timer.pop().data, 3);
    assert_eq!(timer.try_pop(&mut poll), Ok(None));
}

#[test]
fn timer_rearms_repeating_tasks() {
    let mut poll = Poll::new(1);
    let mut timer = Timer::new(&mut poll);
    timer.insert(task(7, 10, 5));
    assert_eq!(timer.tick(&mut poll, 10), TimerAction::Fired);
    assert_eq!(timer.tick(&mut poll, 10), TimerAction::Sleep(5));
    assert_eq!(timer.tick(&mut poll, 15), TimerAction::Fired);
    let first = timer.pop();
    let second = timer.pop();
    assert_eq!(first.timespec.value, 10);
    assert_eq!(second.timespec.value, 15);
    timer.remove(7);
    assert_eq!(timer.tick(&mut poll, 1000), TimerAction::Sleep(IDLE_SLEEP));
}

#[test]
fn timer_remove_takes_first_match_only() {
    let mut poll = Poll::new(1);
    let mut timer = Timer::new(&mut poll);
    timer.insert(task(4, 10, 0));
    timer.insert(task(4, 20, 0));
    timer.remove(4);
    assert_eq!(timer.tick(&mut poll, 15), TimerAction::Sleep(5));
    timer.remove(9);
    assert_eq!(timer.tick(&mut poll, 20), TimerAction::Fired);
    assert_eq!(timer.pop().timespec.value, 20);
}

#[test]
fn channel_ctl_tracks_messages_and_senders() {
    let mut poll = Poll::new(1);
    let mut events = Events::with_capacity(8);
    let mut ctl = ChannelCtl::ctl_pair(&mut poll);
    assert_eq!(ctl.pending(), 0);
    assert_eq!(ctl.senders(), 1);
    ctl.add(&mut poll, Token(40), Ready::readable(), PollOpt::level()).unwrap();
    assert_eq!(ctl.inc(&mut poll), Ok(()));
    assert_eq!(ctl.inc(&mut poll), Ok(()));
    assert_eq!(poll.poll(&mut events, Some(0)), 1);
    assert_eq!(ctl.dec(&mut poll), Ok(()));
    assert_eq!(poll.poll(&mut events, Some(0)), 1);
    assert_eq!(ctl.dec(&mut poll), Ok(()));
    assert_eq!(poll.poll(&mut events, Some(0)), 0);
    ctl.add_sender();
    assert_eq!(ctl.drop_sender(&mut poll), Ok(()));
    assert_eq!(ctl.pending(), 0);
    assert_eq!(poll.poll(&mut events, Some(0)), 0);
    assert_eq!(ctl.drop_sender(&mut poll), Ok(()));
    assert_eq!(ctl.senders(), 0);
    assert_eq!(ctl.pending(), 1);
    assert_eq!(poll.poll(&mut events, Some(0)), 1);
    ctl.modify(&mut poll, Token(41), Ready::readable(), PollOpt::level()).unwrap();
    ctl.delete(&mut poll).unwrap();
}
