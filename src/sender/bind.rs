use vstd::prelude::*;
use crate::traits::{fits, Execution, Receiver, Sender, SenderTo};

verus! {

/// A sender that, once another sender delivers `v`, builds a second sender
/// from `v`, connects it to the receiver and starts it.
pub struct Bind<S, F> {
    sender: S,
    func: F,
}

/// The receiver that a bound sender's first sender completes.
pub struct BindRecv<F, R> {
    pub func: F,
    pub receiver: R,
}

impl<S, F> Bind<S, F> {
    pub closed spec fn inner(&self) -> S {
        self.sender
    }

    pub closed spec fn func(&self) -> F {
        self.func
    }
}

/// Whether `f` may be called on everything that `s` delivers, and builds
/// well-formed senders from it.
pub open spec fn binds_well<S: Sender, T: Sender, F: FnOnce(S::Output) -> T>(s: S, f: F) -> bool {
    forall|v: S::Output| #[trigger]
        s.delivers(v) ==> {
            &&& f.requires((v,))
            &&& forall|t: T| #[trigger] f.ensures((v,), t) ==> t.wf()
        }
}

/// The sender that runs `s`, then the sender `f(v)` built from what `s`
/// delivered, and delivers what that second sender delivers.
pub fn bind<S: Sender, T: Sender, F: FnOnce(S::Output) -> T>(s: S, f: F) -> (r: Bind<S, F>)
    requires
        s.wf(),
        binds_well(s, f),
    ensures
        r.inner() == s,
        r.func() == f,
        r.wf(),
        forall|u: T::Output|
            r.delivers(u) <==> exists|v: S::Output, t: T| #[trigger]
                s.delivers(v) && #[trigger] f.ensures((v,), t) && t.delivers(u),
{
    Bind { sender: s, func: f }
}

/// The same as `bind`: `s` first, then the sender that `f` builds.
pub fn and_then<S: Sender, T: Sender, F: FnOnce(S::Output) -> T>(s: S, f: F) -> (r: Bind<S, F>)
    requires
        s.wf(),
        binds_well(s, f),
    ensures
        r.inner() == s,
        r.func() == f,
        r.wf(),
        forall|u: T::Output|
            r.delivers(u) <==> exists|v: S::Output, t: T| #[trigger]
                s.delivers(v) && #[trigger] f.ensures((v,), t) && t.delivers(u),
{
    bind(s, f)
}

impl<S: Sender, T: Sender, F: FnOnce(S::Output) -> T> Sender for Bind<S, F> {
    type Output = T::Output;

    open spec fn delivers(&self, u: T::Output) -> bool {
        exists|v: S::Output, t: T| #[trigger]
            self.inner().delivers(v) && #[trigger] self.func().ensures((v,), t) && t.delivers(u)
    }

    open spec fn wf(&self) -> bool {
        self.inner().wf() && binds_well(self.inner(), self.func())
    }
}

impl<S, T, F, R> SenderTo<R> for Bind<S, F> where
    S: SenderTo<BindRecv<F, R>>,
    F: FnOnce(S::Output) -> T,
    T: SenderTo<R>,
    R: Receiver<T::Output>,
 {
    type Execution = S::Execution;

    type ConnectError = S::ConnectError;

    open spec fn connects(&self, receiver: &R) -> bool {
        self.inner().connects(&BindRecv { func: self.func(), receiver: *receiver })
    }

    /// The first sender's operation, connected to a receiver that builds
    /// the second sender from its output and runs it against `receiver`.
    open spec fn connected(&self, receiver: R, op: S::Execution) -> bool {
        self.inner().connected(BindRecv { func: self.func(), receiver }, op)
    }

    open spec fn fails_with(&self, receiver: R, e: S::ConnectError) -> bool {
        self.inner().fails_with(BindRecv { func: self.func(), receiver }, e)
    }

    fn connect(self, receiver: R) -> (r: Result<S::Execution, S::ConnectError>) {
        let Bind { sender, func } = self;
        let recv = BindRecv { func, receiver };
        assert forall|v: S::Output| #[trigger] sender.delivers(v) implies recv.accepts(v) by {
            assert forall|t: T| #[trigger] func.ensures((v,), t) implies t.wf() && fits(&t, &receiver) by {
                assert forall|u: T::Output| #[trigger] t.delivers(u) implies receiver.accepts(u) by {
                    assert(self.delivers(u));
                }
            }
        }
        sender.connect(recv)
    }
}

impl<F, R> BindRecv<F, R> {
    pub closed spec fn func(&self) -> F {
        self.func
    }

    pub closed spec fn receiver(&self) -> R {
        self.receiver
    }
}

impl<V, T, F, R> Receiver<V> for BindRecv<F, R> where
    F: FnOnce(V) -> T,
    T: SenderTo<R>,
    R: Receiver<T::Output>,
 {
    open spec fn accepts(&self, v: V) -> bool {
        &&& self.func().requires((v,))
        &&& forall|t: T| #[trigger]
            self.func().ensures((v,), t) ==> t.wf() && fits(&t, &self.receiver())
    }

    /// The function was called once, with `v`, and built a sender `t`;
    /// when `t` is sure to connect to the receiver, the operation it made
    /// was run.
    open spec fn completed_with(&self, v: V) -> bool {
        exists|t: T| #[trigger]
            self.func().ensures((v,), t) && (t.connects(&self.receiver()) ==> exists|op: T::Execution|
                #[trigger] t.connected(self.receiver(), op) && op.ran())
    }

    /// Builds the next sender, connects it and starts it. A failure to connect
    /// after start has no channel to report to: the next operation is then
    /// never run, and the receiver is dropped with it.
    fn set(self, value: V) {
        let ghost recv = self.receiver;
        let BindRecv { func, receiver } = self;
        let next = func(value);
        let ghost t = next;
        match next.connect(receiver) {
            Ok(op) => {
                let ghost o = op;
                op.execute();
                assert(t.connected(recv, o) && o.ran());
            },
            Err(_) => {},
        }
        assert(func.ensures((value,), t));
    }
}

} // verus!
