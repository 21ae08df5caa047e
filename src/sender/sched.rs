use vstd::prelude::*;
use crate::traits::Sender;

verus! {

/// A capability to run work elsewhere: each `schedule` gives a sender that
/// completes with `()` once the work may go on there.
pub trait Scheduler: Sized {
    type Sender: Sender<Output = ()>;

    /// Whether `s` is a sender that this scheduler hands out; unless an
    /// implementation says more, any sender may be.
    open spec fn schedules(&self, s: Self::Sender) -> bool {
        true
    }

    fn schedule(self) -> (r: Self::Sender)
        ensures
            r.wf(),
            self.schedules(r),
    ;
}

/// The sender that completes on `s`.
pub fn schedule<S: Scheduler>(s: S) -> (r: S::Sender)
    ensures
        r.wf(),
        s.schedules(r),
{
    s.schedule()
}

} // verus!
