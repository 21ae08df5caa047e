use vstd::prelude::*;
use crate::traits::{Execution, Receiver, Sender, SenderTo};

verus! {

/// A sender that starts its inner operation as soon as it is connected.
pub struct Eager<S> {
    sender: S,
}

impl<S> Eager<S> {
    pub closed spec fn inner(&self) -> S {
        self.sender
    }
}

/// The sender that runs `s` at connect time.
pub fn eager<S: Sender>(s: S) -> (r: Eager<S>)
    ensures
        r.inner() == s,
        r.wf() == s.wf(),
        forall|v: S::Output| r.delivers(v) == s.delivers(v),
{
    Eager { sender: s }
}

impl<S: Sender> Sender for Eager<S> {
    type Output = S::Output;

    open spec fn delivers(&self, v: S::Output) -> bool {
        self.inner().delivers(v)
    }

    open spec fn wf(&self) -> bool {
        self.inner().wf()
    }
}

impl<S: SenderTo<R>, R: Receiver<S::Output>> SenderTo<R> for Eager<S> {
    type Execution = ();

    type ConnectError = S::ConnectError;

    open spec fn connects(&self, receiver: &R) -> bool {
        self.inner().connects(receiver)
    }

    /// The inner sender was connected to `receiver`, and the operation it
    /// made has already run.
    open spec fn connected(&self, receiver: R, op: ()) -> bool {
        exists|inner_op: S::Execution| #[trigger]
            self.inner().connected(receiver, inner_op) && inner_op.ran()
    }

    open spec fn fails_with(&self, receiver: R, e: S::ConnectError) -> bool {
        self.inner().fails_with(receiver, e)
    }

    /// Connects the inner sender and, if that succeeds, runs it here; the
    /// operation left to start does nothing.
    fn connect(self, receiver: R) -> (r: Result<(), S::ConnectError>) {
        assert forall|v: S::Output| #[trigger] self.sender.delivers(v) implies receiver.accepts(v) by {
            assert(self.delivers(v));
        }
        let ghost recv = receiver;
        match self.sender.connect(receiver) {
            Ok(op) => {
                let ghost o = op;
                op.execute();
                assert(self.inner().connected(recv, o) && o.ran());
                Ok(())
            },
            Err(e) => Err(e),
        }
    }
}

} // verus!
