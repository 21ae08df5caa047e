use vstd::prelude::*;
use crate::sender::sched::Scheduler;
use crate::traits::{Execution, Receiver, Sender, SenderTo};

verus! {

/// A sender that runs another sender where it is started, then moves to a
/// scheduler to deliver its output there.
pub struct Transfer<S, Sched> {
    sender: S,
    sched: Sched,
}

/// The receiver of the inner sender: it schedules the delivery of the value.
pub struct Local<R, Sched> {
    pub receiver: R,
    pub sched: Sched,
}

/// The receiver of the scheduler's sender: it delivers the value it holds.
pub struct Remote<R, T> {
    pub receiver: R,
    pub value: T,
}

impl<S, Sched> Transfer<S, Sched> {
    pub closed spec fn inner(&self) -> S {
        self.sender
    }

    pub closed spec fn sched(&self) -> Sched {
        self.sched
    }
}

/// The sender that runs `s`, then delivers what it delivered on `sched`.
pub fn transfer<S: Sender, Sched: Scheduler>(s: S, sched: Sched) -> (r: Transfer<S, Sched>)
    ensures
        r.inner() == s,
        r.sched() == sched,
        r.wf() == s.wf(),
        forall|v: S::Output| r.delivers(v) == s.delivers(v),
{
    Transfer { sender: s, sched }
}

impl<S: Sender, Sched: Scheduler> Sender for Transfer<S, Sched> {
    type Output = S::Output;

    open spec fn delivers(&self, v: S::Output) -> bool {
        self.inner().delivers(v)
    }

    open spec fn wf(&self) -> bool {
        self.inner().wf()
    }
}

impl<S, Sched, R> SenderTo<R> for Transfer<S, Sched> where
    S: SenderTo<Local<R, Sched>>,
    R: Receiver<S::Output>,
    Sched: Scheduler,
    Sched::Sender: SenderTo<Remote<R, S::Output>>,
 {
    type Execution = S::Execution;

    type ConnectError = S::ConnectError;

    open spec fn connects(&self, receiver: &R) -> bool {
        self.inner().connects(&Local { receiver: *receiver, sched: self.sched() })
    }

    /// The inner sender's operation, connected to a receiver that delivers
    /// to `receiver` from the scheduler.
    open spec fn connected(&self, receiver: R, op: S::Execution) -> bool {
        self.inner().connected(Local { receiver, sched: self.sched() }, op)
    }

    open spec fn fails_with(&self, receiver: R, e: S::ConnectError) -> bool {
        self.inner().fails_with(Local { receiver, sched: self.sched() }, e)
    }

    fn connect(self, receiver: R) -> (r: Result<S::Execution, S::ConnectError>) {
        let Transfer { sender, sched } = self;
        let local = Local { receiver, sched };
        assert forall|v: S::Output| #[trigger] sender.delivers(v) implies local.accepts(v) by {
            assert(self.delivers(v));
        }
        sender.connect(local)
    }
}

impl<R, Sched> Local<R, Sched> {
    pub closed spec fn receiver(&self) -> R {
        self.receiver
    }
}

impl<T, R, Sched> Receiver<T> for Local<R, Sched> where
    R: Receiver<T>,
    Sched: Scheduler,
    Sched::Sender: SenderTo<Remote<R, T>>,
 {
    open spec fn accepts(&self, v: T) -> bool {
        self.receiver().accepts(v)
    }

    /// The scheduler handed out a sender; when that sender is sure to
    /// connect, the operation it made, which completes the receiver with
    /// `v` once on the scheduler, was run.
    open spec fn completed_with(&self, v: T) -> bool {
        exists|hop: Sched::Sender| #[trigger]
            self.sched.schedules(hop) && (hop.connects(&Remote { receiver: self.receiver, value: v })
                ==> exists|op: <Sched::Sender as SenderTo<Remote<R, T>>>::Execution| #[trigger]
                hop.connected(Remote { receiver: self.receiver, value: v }, op) && op.ran())
    }

    /// Schedules the delivery of `value`. A scheduler that cannot be
    /// connected to drops the value and the receiver.
    fn set(self, value: T) {
        let Local { receiver, sched } = self;
        let remote = Remote { receiver, value };
        let ghost rem = remote;
        let hop = sched.schedule();
        let ghost h = hop;
        match hop.connect(remote) {
            Ok(op) => {
                let ghost o = op;
                op.execute();
                assert(h.connected(rem, o) && o.ran());
            },
            Err(_) => {},
        }
        assert(sched.schedules(h));
    }
}

impl<R, T> Remote<R, T> {
    pub closed spec fn receiver(&self) -> R {
        self.receiver
    }

    pub closed spec fn value(&self) -> T {
        self.value
    }
}

impl<R: Receiver<T>, T> Receiver<()> for Remote<R, T> {
    open spec fn accepts(&self, v: ()) -> bool {
        self.receiver().accepts(self.value())
    }

    /// The receiver was completed with the value held here.
    open spec fn completed_with(&self, v: ()) -> bool {
        self.receiver().completed_with(self.value())
    }

    fn set(self, v: ()) {
        self.receiver.set(self.value);
    }
}

} // verus!
