use vstd::prelude::*;

verus! {

/// How the sub-operations of a composite reach its state.
#[derive(PartialEq, Eq, Structural, Clone, Copy, Debug)]
pub enum Place {
    /// At most one sub-operation: it alone reaches the state, with exclusive
    /// access and no synchronisation.
    Exclusive,
    /// Two or more sub-operations, which may complete concurrently: they
    /// share the state, and every change to it goes through a claim that
    /// orders them (a countdown, an atomic).
    Shared,
}

/// The place for a composite of `arity` sub-senders.
pub open spec fn spec_place_for(arity: nat) -> Place {
    if arity <= 1 {
        Place::Exclusive
    } else {
        Place::Shared
    }
}

/// Chooses the place from the number of sub-senders alone.
pub fn place_for(arity: usize) -> (p: Place)
    ensures
        p == spec_place_for(arity as nat),
{
    if arity <= 1 {
        Place::Exclusive
    } else {
        Place::Shared
    }
}

} // verus!
