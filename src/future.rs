use vstd::prelude::*;

verus! {

/// What a wake asks of the waker.
#[derive(PartialEq, Eq, Structural, Clone, Copy, Debug)]
pub enum WakeAction {
    /// The poll lock was free and the waker now holds it: it is to poll
    /// until `poll_next` says the future is quiescent.
    Poll,
    /// A poll is in flight: the wake is recorded, and that poll will poll
    /// once more before it lets go of the lock.
    Deferred,
    /// The future has finished or was torn down: there is nothing to poll.
    Finished,
}

/// The decisions of the bridge that runs a poll-based future as a sender:
/// when to poll, when a wake is left to a poll in flight, and when the
/// receiver is fulfilled. The future, its receiver and the lock they sit
/// under are held by the caller, which polls when told to.
///
/// Wakes raised during a poll are coalesced into one more turn of the poll
/// loop instead of a nested poll, which bounds the stack under futures that
/// wake themselves.
pub struct FutureState {
    polls_again: bool,
    polling: bool,
    done: bool,
    deliveries: Ghost<nat>,
}

impl FutureState {
    /// A wake has come that no poll has answered yet.
    pub closed spec fn polls_again(&self) -> bool {
        self.polls_again
    }

    /// The poll lock is held.
    pub closed spec fn polling(&self) -> bool {
        self.polling
    }

    /// The future has finished, or was torn down; its cell is empty.
    pub closed spec fn done(&self) -> bool {
        self.done
    }

    /// How many times the receiver was fulfilled.
    pub closed spec fn deliveries(&self) -> nat {
        self.deliveries@
    }

    /// The receiver is fulfilled at most once, and not after the cell has
    /// been emptied.
    pub closed spec fn wf(&self) -> bool {
        &&& self.deliveries@ <= 1
        &&& self.deliveries@ == 1 ==> self.done
        &&& self.done ==> !self.polling
    }

    /// Whether the poll lock is held.
    pub fn is_polling(&self) -> (b: bool)
        ensures
            b == self.polling(),
    {
        self.polling
    }

    /// Whether the future has finished or was torn down.
    pub fn is_done(&self) -> (b: bool)
        ensures
            b == self.done(),
    {
        self.done
    }

    /// The state of a bridge that was connected and not started: the start
    /// counts as a wake, so the first poll is owed.
    pub fn new() -> (r: Self)
        ensures
            r.wf(),
            r.polls_again(),
            !r.polling(),
            !r.done(),
            r.deliveries() == 0,
    {
        FutureState { polls_again: true, polling: false, done: false, deliveries: Ghost(0) }
    }

    /// A wake, or the start. It records that a poll is owed, then takes the
    /// poll lock if it is free.
    pub fn wake(&mut self) -> (a: WakeAction)
        requires
            old(self).wf(),
        ensures
            final(self).wf(),
            final(self).deliveries() == old(self).deliveries(),
            final(self).done() == old(self).done(),
            old(self).done() ==> a == WakeAction::Finished && *final(self) == *old(self),
            !old(self).done() && !old(self).polling() ==> a == WakeAction::Poll,
            !old(self).done() && old(self).polling() ==> a == WakeAction::Deferred,
            !old(self).done() ==> final(self).polling() && final(self).polls_again(),
    {
        if self.done {
            return WakeAction::Finished;
        }
        self.polls_again = true;
        if self.polling {
            WakeAction::Deferred
        } else {
            self.polling = true;
            WakeAction::Poll
        }
    }

    /// With the poll lock held: whether to poll now. It answers the wakes
    /// recorded so far; when there are none, the future is quiescent and
    /// the lock is let go.
    pub fn poll_next(&mut self) -> (go: bool)
        requires
            old(self).wf(),
            old(self).polling(),
        ensures
            final(self).wf(),
            final(self).deliveries() == old(self).deliveries(),
            final(self).done() == old(self).done(),
            go == old(self).polls_again(),
            !final(self).polls_again(),
            final(self).polling() == go,
    {
        if self.polls_again {
            self.polls_again = false;
            true
        } else {
            self.polling = false;
            false
        }
    }

    /// With the poll lock held, after a poll. When the future was ready,
    /// this is the one time its receiver is fulfilled: the cell is emptied
    /// and the lock let go. Otherwise nothing changes.
    pub fn polled(&mut self, ready: bool) -> (deliver: bool)
        requires
            old(self).wf(),
            old(self).polling(),
        ensures
            final(self).wf(),
            deliver == ready,
            ready ==> final(self).done() && !final(self).polling() && final(self).deliveries() == 1,
            !ready ==> *final(self) == *old(self),
    {
        if ready {
            self.done = true;
            self.polling = false;
            self.deliveries = Ghost(1);
            true
        } else {
            false
        }
    }

    /// Teardown: the future and the receiver are dropped without being
    /// told, and later wakes find nothing to poll. Called with the poll
    /// lock free.
    pub fn cancel(&mut self)
        requires
            old(self).wf(),
            !old(self).polling(),
        ensures
            final(self).wf(),
            final(self).done(),
            final(self).deliveries() == old(self).deliveries(),
    {
        self.done = true;
        self.polls_again = false;
    }
}

} // verus!
