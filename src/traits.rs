use vstd::prelude::*;

verus! {

/// A single-use completion callback: it is handed one value and is consumed
/// by it, so that no receiver can complete twice.
pub trait Receiver<T>: Sized {
    /// The values with which this receiver may be completed; unless an
    /// implementation says otherwise, any value.
    open spec fn accepts(&self, value: T) -> bool {
        true
    }

    /// What holds once this receiver has been completed with `value`;
    /// unless an implementation says more, only that it was.
    open spec fn completed_with(&self, value: T) -> bool {
        true
    }

    fn set(self, value: T)
        requires
            self.accepts(value),
        ensures
            self.completed_with(value),
    ;
}

/// A closure taking the value is a receiver; it accepts what it may be
/// called with, and completing it calls it with the value.
impl<T, F: FnOnce(T)> Receiver<T> for F {
    open spec fn accepts(&self, value: T) -> bool {
        self.requires((value,))
    }

    open spec fn completed_with(&self, value: T) -> bool {
        self.ensures((value,), ())
    }

    fn set(self, value: T) {
        self(value);
    }
}

/// An inert description of a computation that, once connected and started,
/// delivers one `Output`.
pub trait Sender {
    type Output;

    /// The values that this sender may deliver; unless an implementation
    /// says otherwise, any value.
    open spec fn delivers(&self, value: Self::Output) -> bool {
        true
    }

    /// The sender's own invariant, what connecting it relies on; unless an
    /// implementation says otherwise, none.
    open spec fn wf(&self) -> bool {
        true
    }
}

/// A receiver that takes what the sender `S` delivers.
pub trait ReceiverFrom<S: Sender>: Receiver<S::Output> {

}

impl<S: Sender, R: Receiver<S::Output>> ReceiverFrom<S> for R {

}

/// A connected operation that has not run yet; running it consumes it, so it
/// runs at most once.
pub trait Execution: Sized {
    /// The operation's own invariant, which connecting establishes; unless
    /// an implementation says otherwise, none.
    open spec fn ready(&self) -> bool {
        true
    }

    /// What holds once this operation has run; unless an implementation
    /// says more, only that it did.
    open spec fn ran(&self) -> bool {
        true
    }

    fn execute(self)
        requires
            self.ready(),
        ensures
            self.ran(),
    ;
}

impl Execution for () {
    open spec fn ready(&self) -> bool {
        true
    }

    open spec fn ran(&self) -> bool {
        true
    }

    fn execute(self) {
    }
}

/// A closure taking nothing is an operation; it is ready when it may be
/// called.
impl<F: FnOnce()> Execution for F {
    open spec fn ready(&self) -> bool {
        self.requires(())
    }

    open spec fn ran(&self) -> bool {
        self.ensures((), ())
    }

    fn execute(self) {
        self();
    }
}

/// A vector of operations runs them in the order of the vector.
impl<T: Execution> Execution for Vec<T> {
    open spec fn ready(&self) -> bool {
        forall|i: int| 0 <= i < self@.len() ==> #[trigger] self@[i].ready()
    }

    open spec fn ran(&self) -> bool {
        forall|i: int| 0 <= i < self@.len() ==> #[trigger] self@[i].ran()
    }

    fn execute(self) {
        let ghost all = self@;
        let n = self.len();
        let mut ops = self;
        let mut done: usize = 0;
        while ops.len() > 0
            invariant
                done + ops@.len() == all.len(),
                n == all.len(),
                ops@ == all.subrange(done as int, all.len() as int),
                forall|i: int| 0 <= i < all.len() ==> #[trigger] all[i].ready(),
                forall|i: int| 0 <= i < done ==> #[trigger] all[i].ran(),
            decreases ops@.len(),
        {
            let op = ops.remove(0);
            assert(op == all[done as int]);
            op.execute();
            done = done + 1;
        }
    }
}

/// Whether every value that `sender` may deliver is one that `receiver`
/// accepts.
pub open spec fn fits<S: Sender, R: Receiver<S::Output>>(sender: &S, receiver: &R) -> bool {
    forall|v: S::Output| #[trigger] sender.delivers(v) ==> receiver.accepts(v)
}

/// A sender that can be connected to the receiver `R`. Connecting runs
/// nothing: it either fails or yields an operation to start.
pub trait SenderTo<R: Receiver<Self::Output>>: Sender + Sized {
    type Execution: Execution;

    type ConnectError;

    /// Whether connecting to `receiver` is sure to succeed; unless an
    /// implementation says otherwise, it is not.
    open spec fn connects(&self, receiver: &R) -> bool {
        false
    }

    /// What the operation made by connecting to `receiver` is: what running
    /// it does to the receiver. Unless an implementation says more, nothing
    /// is known of it.
    open spec fn connected(&self, receiver: R, op: Self::Execution) -> bool {
        true
    }

    /// What a failure to connect to `receiver` with `e` means; unless an
    /// implementation says more, nothing is known of it.
    open spec fn fails_with(&self, receiver: R, e: Self::ConnectError) -> bool {
        true
    }

    fn connect(self, receiver: R) -> (r: Result<Self::Execution, Self::ConnectError>)
        requires
            self.wf(),
            fits(&self, &receiver),
        ensures
            self.connects(&receiver) ==> r is Ok,
            r matches Ok(op) ==> op.ready() && self.connected(receiver, op),
            r matches Err(e) ==> self.fails_with(receiver, e),
    ;
}

} // verus!
