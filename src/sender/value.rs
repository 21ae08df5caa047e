use vstd::prelude::*;
use crate::traits::{Execution, Receiver, Sender, SenderTo};
use std::convert::Infallible;

verus! {

/// A sender that delivers a value it already holds, as soon as it is started.
pub struct Value<T> {
    value: T,
}

/// The operation of a connected `Value`: it hands the value to the receiver.
pub struct ValueExec<T, R> {
    value: T,
    receiver: R,
}

impl<T> Value<T> {
    /// The value that the sender delivers.
    pub closed spec fn payload(&self) -> T {
        self.value
    }
}

/// A sender of `value`, with no sub-operation.
pub fn value<T>(v: T) -> (r: Value<T>)
    ensures
        r.payload() == v,
        r.wf(),
        forall|u: T| r.delivers(u) <==> u == v,
{
    Value { value: v }
}

impl<T> Sender for Value<T> {
    type Output = T;

    open spec fn delivers(&self, v: T) -> bool {
        v == self.payload()
    }

    open spec fn wf(&self) -> bool {
        true
    }
}

impl<T, R: Receiver<T>> SenderTo<R> for Value<T> {
    type Execution = ValueExec<T, R>;

    type ConnectError = Infallible;

    open spec fn connects(&self, receiver: &R) -> bool {
        true
    }

    open spec fn connected(&self, receiver: R, op: ValueExec<T, R>) -> bool {
        op.payload() == self.payload() && op.receiver() == receiver
    }

    fn connect(self, receiver: R) -> (r: Result<ValueExec<T, R>, Infallible>) {
        assert(self.delivers(self.value));
        Ok(ValueExec { value: self.value, receiver })
    }
}

impl<T, R> ValueExec<T, R> {
    /// The value that the operation will hand over.
    pub closed spec fn payload(&self) -> T {
        self.value
    }

    /// The receiver that the operation will complete.
    pub closed spec fn receiver(&self) -> R {
        self.receiver
    }
}

impl<T, R: Receiver<T>> Execution for ValueExec<T, R> {
    open spec fn ready(&self) -> bool {
        self.receiver().accepts(self.payload())
    }

    /// Running it completes the receiver with the payload, on the calling
    /// thread, before `execute` returns.
    open spec fn ran(&self) -> bool {
        self.receiver().completed_with(self.payload())
    }

    fn execute(self) {
        self.receiver.set(self.value);
    }
}

} // verus!
