use vstd::prelude::*;
use crate::traits::{fits, Execution, Receiver, Sender, SenderTo};

verus! {

/// A right-nested list of operations, `(A, (B, (C, ())))`, that runs as one.
pub trait ExecutionList: Sized {
    /// Whether every operation in the list is ready to run.
    spec fn all_ready(&self) -> bool;

    /// What holds once every operation of the list has run.
    spec fn all_ran(&self) -> bool;

    /// Runs the operations in the order of the list, on the calling thread.
    fn execute_list(self)
        requires
            self.all_ready(),
        ensures
            self.all_ran(),
    ;
}

impl ExecutionList for () {
    open spec fn all_ready(&self) -> bool {
        true
    }

    open spec fn all_ran(&self) -> bool {
        true
    }

    fn execute_list(self) {
    }
}

impl<Head: Execution, Tail: ExecutionList> ExecutionList for (Head, Tail) {
    open spec fn all_ready(&self) -> bool {
        self.0.ready() && self.1.all_ready()
    }

    open spec fn all_ran(&self) -> bool {
        self.0.ran() && self.1.all_ran()
    }

    fn execute_list(self) {
        let (head, tail) = self;
        head.execute();
        tail.execute_list();
    }
}

/// A right-nested list of senders, each connected to the receiver at the
/// same position of a list of receivers, with the connection errors of all
/// of them brought into the one error type `E`.
pub trait SenderListTo<R, E>: Sized {
    type ExecutionList: ExecutionList;

    /// Whether each sender may be connected to the receiver beside it.
    spec fn fits_list(&self, receivers: &R) -> bool;

    /// Whether each sender is sure to connect to the receiver beside it.
    spec fn connects_list(&self, receivers: &R) -> bool;

    /// Whether each operation of `ops` is what its sender made when
    /// connected to the receiver at the same position.
    spec fn connected_list(&self, receivers: R, ops: Self::ExecutionList) -> bool;

    /// Whether `e` is the converted error of the first sender of the list
    /// that failed to connect, all senders before it having connected.
    spec fn fails_list_with(&self, receivers: R, e: E) -> bool;

    /// Connects the senders in the order of the list. At the first failure
    /// the senders after it are not connected, the operations connected
    /// before it are dropped, and its error is returned, converted into `E`.
    fn connect_list(self, receivers: R) -> (r: Result<Self::ExecutionList, E>)
        requires
            self.fits_list(&receivers),
        ensures
            self.connects_list(&receivers) ==> r is Ok,
            r matches Ok(list) ==> list.all_ready() && self.connected_list(receivers, list),
            r matches Err(e) ==> self.fails_list_with(receivers, e),
    ;
}

impl<E> SenderListTo<(), E> for () {
    type ExecutionList = ();

    open spec fn fits_list(&self, receivers: &()) -> bool {
        true
    }

    open spec fn connects_list(&self, receivers: &()) -> bool {
        true
    }

    open spec fn connected_list(&self, receivers: (), ops: ()) -> bool {
        true
    }

    open spec fn fails_list_with(&self, receivers: (), e: E) -> bool {
        false
    }

    fn connect_list(self, receivers: ()) -> (r: Result<(), E>) {
        Ok(())
    }
}

impl<HeadSender, TailSender, HeadReceiver, TailReceiver, E> SenderListTo<
    (HeadReceiver, TailReceiver),
    E,
> for (HeadSender, TailSender) where
    HeadSender: SenderTo<HeadReceiver>,
    E: From<HeadSender::ConnectError>,
    HeadReceiver: Receiver<HeadSender::Output>,
    TailSender: SenderListTo<TailReceiver, E>,
 {
    type ExecutionList = (HeadSender::Execution, TailSender::ExecutionList);

    open spec fn fits_list(&self, receivers: &(HeadReceiver, TailReceiver)) -> bool {
        &&& self.0.wf()
        &&& fits(&self.0, &receivers.0)
        &&& self.1.fits_list(&receivers.1)
    }

    open spec fn connects_list(&self, receivers: &(HeadReceiver, TailReceiver)) -> bool {
        self.0.connects(&receivers.0) && self.1.connects_list(&receivers.1)
    }

    open spec fn connected_list(
        &self,
        receivers: (HeadReceiver, TailReceiver),
        ops: Self::ExecutionList,
    ) -> bool {
        self.0.connected(receivers.0, ops.0) && self.1.connected_list(receivers.1, ops.1)
    }

    open spec fn fails_list_with(&self, receivers: (HeadReceiver, TailReceiver), e: E) -> bool {
        ||| exists|he: HeadSender::ConnectError| #[trigger]
            self.0.fails_with(receivers.0, he) && call_ensures(E::from, (he,), e)
        ||| exists|op: HeadSender::Execution| #[trigger]
            self.0.connected(receivers.0, op) && self.1.fails_list_with(receivers.1, e)
    }

    fn connect_list(self, receivers: (HeadReceiver, TailReceiver)) -> (r: Result<
        Self::ExecutionList,
        E,
    >) {
        let (head, tail) = self;
        let (head_receiver, tail_receiver) = receivers;
        let ghost (h, hr) = (head, head_receiver);
        match head.connect(head_receiver) {
            Err(e) => {
                let ghost he = e;
                let converted: E = e.into();
                assert(h.fails_with(hr, he) && call_ensures(E::from, (he,), converted));
                Err(converted)
            },
            Ok(head_op) => {
                let ghost o = head_op;
                match tail.connect_list(tail_receiver) {
                    Err(e) => {
                        assert(h.connected(hr, o));
                        Err(e)
                    },
                    Ok(tail_ops) => Ok((head_op, tail_ops)),
                }
            },
        }
    }
}

} // verus!
