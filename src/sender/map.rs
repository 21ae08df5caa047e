use vstd::prelude::*;
use crate::traits::{fits, Receiver, Sender, SenderTo};

verus! {

/// A sender that applies a function to what another sender delivers.
pub struct MapSender<S, F> {
    sender: S,
    func: F,
}

/// The receiver that a mapped sender's inner sender completes: it applies the
/// function and completes the outer receiver with the result.
pub struct MapRecv<F, R> {
    pub func: F,
    pub receiver: R,
}

impl<S, F> MapSender<S, F> {
    pub closed spec fn inner(&self) -> S {
        self.sender
    }

    pub closed spec fn func(&self) -> F {
        self.func
    }
}

/// The sender that delivers `f(v)` for the `v` that `s` delivers.
pub fn map<S: Sender, U, F: FnOnce(S::Output) -> U>(s: S, f: F) -> (r: MapSender<S, F>)
    requires
        s.wf(),
        forall|v: S::Output| #[trigger] s.delivers(v) ==> f.requires((v,)),
    ensures
        r.inner() == s,
        r.func() == f,
        r.wf(),
        forall|u: U|
            r.delivers(u) <==> exists|v: S::Output| #[trigger] s.delivers(v) && f.ensures((v,), u),
{
    MapSender { sender: s, func: f }
}

impl<S: Sender, U, F: FnOnce(S::Output) -> U> Sender for MapSender<S, F> {
    type Output = U;

    open spec fn delivers(&self, u: U) -> bool {
        exists|v: S::Output| #[trigger] self.inner().delivers(v) && self.func().ensures((v,), u)
    }

    open spec fn wf(&self) -> bool {
        &&& self.inner().wf()
        &&& forall|v: S::Output| #[trigger]
            self.inner().delivers(v) ==> self.func().requires((v,))
    }
}

impl<S, U, F, R> SenderTo<R> for MapSender<S, F> where
    S: SenderTo<MapRecv<F, R>>,
    F: FnOnce(S::Output) -> U,
    R: Receiver<U>,
 {
    type Execution = S::Execution;

    type ConnectError = S::ConnectError;

    open spec fn connects(&self, receiver: &R) -> bool {
        self.inner().connects(&MapRecv { func: self.func(), receiver: *receiver })
    }

    /// The inner sender's operation, connected to a receiver that applies
    /// the function and completes `receiver` with the result.
    open spec fn connected(&self, receiver: R, op: S::Execution) -> bool {
        self.inner().connected(MapRecv { func: self.func(), receiver }, op)
    }

    open spec fn fails_with(&self, receiver: R, e: S::ConnectError) -> bool {
        self.inner().fails_with(MapRecv { func: self.func(), receiver }, e)
    }

    fn connect(self, receiver: R) -> (r: Result<S::Execution, S::ConnectError>) {
        let MapSender { sender, func } = self;
        let recv = MapRecv { func, receiver };
        assert forall|v: S::Output| #[trigger] sender.delivers(v) implies recv.accepts(v) by {
            assert forall|u: U| func.ensures((v,), u) implies receiver.accepts(u) by {
                assert(self.delivers(u));
            }
        }
        sender.connect(recv)
    }
}

impl<F, R> MapRecv<F, R> {
    pub closed spec fn func(&self) -> F {
        self.func
    }

    pub closed spec fn receiver(&self) -> R {
        self.receiver
    }
}

impl<T, U, F: FnOnce(T) -> U, R: Receiver<U>> Receiver<T> for MapRecv<F, R> {
    open spec fn accepts(&self, v: T) -> bool {
        &&& self.func().requires((v,))
        &&& forall|u: U| #[trigger] self.func().ensures((v,), u) ==> self.receiver().accepts(u)
    }

    /// The function was called once, with `v`, and the outer receiver was
    /// completed with what it returned.
    open spec fn completed_with(&self, v: T) -> bool {
        exists|u: U| #[trigger] self.func().ensures((v,), u) && self.receiver().completed_with(u)
    }

    fn set(self, value: T) {
        let MapRecv { func, receiver } = self;
        let out = func(value);
        receiver.set(out);
    }
}

} // verus!
