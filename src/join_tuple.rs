use vstd::prelude::*;
use crate::traits::Receiver;

verus! {

/// A right-nested list of options, `(Option<A>, (Option<B>, ()))`, that
/// becomes the list of their contents when every one of them holds a value.
pub trait ZipOption: Sized {
    type Zipped;

    /// Whether every option of the list holds a value.
    spec fn all_some(&self) -> bool;

    /// The contents of the options, when all of them hold one.
    spec fn zipped(&self) -> Self::Zipped;

    fn zip_option(self) -> (r: Option<Self::Zipped>)
        ensures
            r is Some <==> self.all_some(),
            r matches Some(z) ==> z == self.zipped(),
    ;
}

impl ZipOption for () {
    type Zipped = ();

    open spec fn all_some(&self) -> bool {
        true
    }

    open spec fn zipped(&self) -> () {
        ()
    }

    fn zip_option(self) -> (r: Option<()>) {
        Some(())
    }
}

impl<Head, Tail: ZipOption> ZipOption for (Option<Head>, Tail) {
    type Zipped = (Head, Tail::Zipped);

    open spec fn all_some(&self) -> bool {
        self.0 is Some && self.1.all_some()
    }

    open spec fn zipped(&self) -> (Head, Tail::Zipped) {
        (self.0->Some_0, self.1.zipped())
    }

    fn zip_option(self) -> (r: Option<(Head, Tail::Zipped)>) {
        let (head, tail) = self;
        match head {
            None => None,
            Some(h) => match tail.zip_option() {
                None => None,
                Some(t) => Some((h, t)),
            },
        }
    }
}

/// A tuple of values followed by the receiver of all of them; consuming it
/// completes that receiver with the values, as one tuple.
pub trait ReceiverList: Sized {
    /// Whether the receiver accepts the values beside it.
    spec fn consumable(&self) -> bool;

    fn consume(self)
        requires
            self.consumable(),
    ;
}

impl<R: Receiver<()>> ReceiverList for (R,) {
    open spec fn consumable(&self) -> bool {
        self.0.accepts(())
    }

    fn consume(self) {
        let (r,) = self;
        r.set(());
    }
}

impl<A, R: Receiver<(A,)>> ReceiverList for (A, R) {
    open spec fn consumable(&self) -> bool {
        self.1.accepts((self.0,))
    }

    fn consume(self) {
        let (a, r) = self;
        r.set((a,));
    }
}

impl<A, B, R: Receiver<(A, B)>> ReceiverList for (A, B, R) {
    open spec fn consumable(&self) -> bool {
        self.2.accepts((self.0, self.1))
    }

    fn consume(self) {
        let (a, b, r) = self;
        r.set((a, b));
    }
}

impl<A, B, C, R: Receiver<(A, B, C)>> ReceiverList for (A, B, C, R) {
    open spec fn consumable(&self) -> bool {
        self.3.accepts((self.0, self.1, self.2))
    }

    fn consume(self) {
        let (a, b, c, r) = self;
        r.set((a, b, c));
    }
}

} // verus!
