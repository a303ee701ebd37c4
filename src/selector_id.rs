use vstd::prelude::*;

use crate::poll::{Poll, PollError};

verus! {

/// The poll a resource was first registered with; zero until then.
#[derive(Debug, Default)]
pub struct SelectorId {
    id: usize,
}

impl SelectorId {
    pub closed spec fn id_spec(&self) -> usize {
        self.id
    }

    /// Not associated with any poll.
    pub fn new() -> (r: SelectorId)
        ensures
            r.id_spec() == 0,
    {
        SelectorId { id: 0 }
    }

    /// Associates the resource with `poll`: the first association holds, and
    /// one with another poll is refused.
    pub fn associate_selector(&mut self, poll: &Poll) -> (r: Result<(), PollError>)
        ensures
            r is Err <==> old(self).id_spec() != 0 && old(self).id_spec() != poll.id_spec(),
            r is Err ==> r == Err::<(), PollError>(PollError::AlreadyAssociated) && final(self).id_spec()
                == old(self).id_spec(),
            r is Ok ==> final(self).id_spec() == poll.id_spec(),
    {
        let selector_id = self.id;
        let poll_id = poll.id();
        if selector_id != 0 && selector_id != poll_id {
            Err(PollError::AlreadyAssociated)
        } else {
            self.id = poll_id;
            Ok(())
        }
    }

    /// A copy that holds the same association.
    pub fn clone(&self) -> (r: SelectorId)
        ensures
            r.id_spec() == self.id_spec(),
    {
        SelectorId { id: self.id }
    }
}

} // verus!
