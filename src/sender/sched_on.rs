use vstd::prelude::*;
use crate::sender::sched::Scheduler;
use crate::traits::{fits, Execution, Receiver, Sender, SenderTo};

verus! {

/// A sender that first moves to a scheduler, then connects and starts
/// another sender there.
pub struct SchedOn<S, Sched> {
    sender: S,
    sched: Sched,
}

/// The receiver of the scheduler's sender: once on the scheduler, it
/// connects and starts the sender it holds.
pub struct SchedOnRecv<S, R> {
    pub sender: S,
    pub receiver: R,
}

impl<S, Sched> SchedOn<S, Sched> {
    pub closed spec fn inner(&self) -> S {
        self.sender
    }

    pub closed spec fn sched(&self) -> Sched {
        self.sched
    }
}

/// The sender that runs `s` on `sched` and delivers what `s` delivers.
pub fn sched_on<S: Sender, Sched: Scheduler>(s: S, sched: Sched) -> (r: SchedOn<S, Sched>)
    ensures
        r.inner() == s,
        r.sched() == sched,
        r.wf() == s.wf(),
        forall|v: S::Output| r.delivers(v) == s.delivers(v),
{
    SchedOn { sender: s, sched }
}

impl<S: Sender, Sched: Scheduler> Sender for SchedOn<S, Sched> {
    type Output = S::Output;

    open spec fn delivers(&self, v: S::Output) -> bool {
        self.inner().delivers(v)
    }

    open spec fn wf(&self) -> bool {
        self.inner().wf()
    }
}

impl<S, Sched, R> SenderTo<R> for SchedOn<S, Sched> where
    S: SenderTo<R>,
    R: Receiver<S::Output>,
    Sched: Scheduler,
    Sched::Sender: SenderTo<SchedOnRecv<S, R>>,
 {
    type Execution = <Sched::Sender as SenderTo<SchedOnRecv<S, R>>>::Execution;

    type ConnectError = <Sched::Sender as SenderTo<SchedOnRecv<S, R>>>::ConnectError;

    /// The operation of a sender that the scheduler handed out, connected
    /// to a receiver that, once on the scheduler, runs the inner sender
    /// against `receiver`.
    open spec fn connected(&self, receiver: R, op: Self::Execution) -> bool {
        exists|hop: Sched::Sender| #[trigger]
            self.sched().schedules(hop) && hop.connected(
                SchedOnRecv { sender: self.inner(), receiver },
                op,
            )
    }

    fn connect(self, receiver: R) -> (r: Result<Self::Execution, Self::ConnectError>) {
        let SchedOn { sender, sched } = self;
        let recv = SchedOnRecv { sender, receiver };
        assert forall|v: S::Output| #[trigger] sender.delivers(v) implies receiver.accepts(v) by {
            assert(self.delivers(v));
        }
        assert(recv.accepts(()));
        let hop = sched.schedule();
        let ghost h = hop;
        let r = hop.connect(recv);
        assert(recv == SchedOnRecv { sender: self.inner(), receiver });
        assert(sched == self.sched());
        assert(r matches Ok(op) ==> self.sched().schedules(h) && h.connected(
            SchedOnRecv { sender: self.inner(), receiver },
            op,
        ));
        r
    }
}

impl<S, R> SchedOnRecv<S, R> {
    pub closed spec fn inner(&self) -> S {
        self.sender
    }

    pub closed spec fn receiver(&self) -> R {
        self.receiver
    }
}

impl<S: SenderTo<R>, R: Receiver<S::Output>> Receiver<()> for SchedOnRecv<S, R> {
    open spec fn accepts(&self, v: ()) -> bool {
        self.inner().wf() && fits(&self.inner(), &self.receiver())
    }

    /// When the held sender is sure to connect to the receiver, the
    /// operation it made was run.
    open spec fn completed_with(&self, v: ()) -> bool {
        self.inner().connects(&self.receiver()) ==> exists|op: S::Execution| #[trigger]
            self.inner().connected(self.receiver(), op) && op.ran()
    }

    /// Connects and starts the held sender. A failure to connect after
    /// start has no channel to report to: the sender and the receiver are
    /// then dropped.
    fn set(self, v: ()) {
        let SchedOnRecv { sender, receiver } = self;
        let ghost (s, recv) = (sender, receiver);
        match sender.connect(receiver) {
            Ok(op) => {
                let ghost o = op;
                op.execute();
                assert(s.connected(recv, o) && o.ran());
            },
            Err(_) => {},
        }
    }
}

} // verus!
