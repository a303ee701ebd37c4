use vstd::prelude::*;

pub mod block_queue;
pub mod channel;
pub mod delivery;
pub mod epoll_opt;
pub mod event;
pub mod message_queue;
pub mod mpms_queue;
pub mod poll;
pub mod poll_lock;
pub mod queue;
pub mod ready;
pub mod selector_id;
pub mod readiness_queue;
pub mod state;
pub mod timer;
pub mod token;

verus! {

} // verus!
