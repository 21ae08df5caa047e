use vstd::prelude::*;

verus! {

/// A value shared by a fixed number of claimants, of which exactly the one
/// that brings the countdown to zero receives the value.
///
/// Each call of `take` stands for one claimant; the claims are ordered as an
/// atomic read-modify-write would order them. A slot dropped before its last
/// claim drops the value with it.
pub struct CountDownSlot<T> {
    count: usize,
    value: Option<T>,
}

/// Whether a claim made while `count` claims remain receives the value.
pub open spec fn claim_yields(count: nat) -> bool {
    count == 1
}

/// The number of claims that remain after one claim made with `count` left.
pub open spec fn count_after_claim(count: nat) -> nat {
    if count == 0 { 0 } else { (count - 1) as nat }
}

/// The number of claims left after `k` successive claims, starting from `count`.
pub open spec fn count_after_claims(count: nat, k: nat) -> nat
    decreases k,
{
    if k == 0 {
        count
    } else {
        count_after_claim(count_after_claims(count, (k - 1) as nat))
    }
}

/// How many of `k` successive claims, starting from `count`, receive the value.
pub open spec fn yields_in_run(count: nat, k: nat) -> nat
    decreases k,
{
    if k == 0 {
        0
    } else {
        yields_in_run(count, (k - 1) as nat) + if claim_yields(
            count_after_claims(count, (k - 1) as nat),
        ) {
            1nat
        } else {
            0nat
        }
    }
}

proof fn lemma_count_after_claims(count: nat, k: nat)
    requires
        k <= count,
    ensures
        count_after_claims(count, k) == count - k,
    decreases k,
{
    if k > 0 {
        lemma_count_after_claims(count, (k - 1) as nat);
    }
}

proof fn lemma_no_yield_before_last(count: nat, k: nat)
    requires
        k < count,
    ensures
        yields_in_run(count, k) == 0,
    decreases k,
{
    if k > 0 {
        lemma_no_yield_before_last(count, (k - 1) as nat);
        lemma_count_after_claims(count, (k - 1) as nat);
    }
}

/// Of the `n` claims that a slot made for `n` claimants receives, in any
/// order of the claimants, exactly one gets the value: the claim made `i`-th
/// gets it exactly when it is the last, and the run as a whole yields once.
pub proof fn lemma_exactly_one_claim_yields(n: nat)
    requires
        n >= 1,
    ensures
        yields_in_run(n, n) == 1,
        forall|i: nat| i < n ==> (#[trigger] claim_yields(count_after_claims(n, i)) <==> i == n - 1),
{
    lemma_no_yield_before_last(n, (n - 1) as nat);
    lemma_count_after_claims(n, (n - 1) as nat);
    assert forall|i: nat| i < n implies (#[trigger] claim_yields(count_after_claims(n, i)) <==> i
        == n - 1) by {
        lemma_count_after_claims(n, i);
    }
}

impl<T> CountDownSlot<T> {
    /// Claims that have not been made yet.
    pub closed spec fn remaining(&self) -> nat {
        self.count as nat
    }

    /// The value, while no claim has received it.
    pub closed spec fn held(&self) -> Option<T> {
        self.value
    }

    pub closed spec fn wf(&self) -> bool {
        self.count > 0 ==> self.value.is_some()
    }

    /// A slot that hands `value` to the last of `count` claims. The count
    /// must fit a signed machine word, as the counter of a lock-free slot
    /// is one.
    pub fn new(count: usize, value: T) -> (r: Self)
        requires
            count <= isize::MAX,
        ensures
            r.wf(),
            r.remaining() == count,
            r.held() == Some(value),
    {
        CountDownSlot { count, value: Some(value) }
    }

    /// Makes one claim: the value comes back exactly when this claim is the
    /// last one expected.
    pub fn take(&mut self) -> (r: Option<T>)
        requires
            old(self).wf(),
        ensures
            final(self).wf(),
            final(self).remaining() == count_after_claim(old(self).remaining()),
            claim_yields(old(self).remaining()) ==> r == old(self).held() && r.is_some()
                && final(self).held() is None,
            !claim_yields(old(self).remaining()) ==> r is None && final(self).held() == old(self).held(),
    {
        if self.count == 1 {
            self.count = 0;
            self.value.take()
        } else if self.count > 1 {
            self.count = self.count - 1;
            None
        } else {
            None
        }
    }
}

} // verus!
