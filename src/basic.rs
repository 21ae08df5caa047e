use vstd::prelude::*;
use crate::place::{place_for, spec_place_for, Place};
use crate::slot::{claim_yields, count_after_claim, CountDownSlot};
use crate::traits::{Execution, Receiver};

verus! {

/// The completion of one sub-operation, tagged with the position of its
/// sub-sender, so that it is routed to that position and no other.
pub struct Sum<T> {
    pub index: usize,
    pub value: T,
}

/// Where a sub-operation of a composite stands.
#[derive(PartialEq, Eq, Structural, Clone, Copy, Debug)]
pub enum Branch {
    /// Connected and not started.
    Connected,
    /// Started, and its completion not reported yet.
    Running,
    /// It reported its completion.
    Completed,
}

/// How many of the branches have not completed.
pub open spec fn outstanding(status: Seq<Branch>) -> nat
    decreases status.len(),
{
    if status.len() == 0 {
        0
    } else {
        outstanding(status.drop_last()) + if status.last() == Branch::Completed {
            0nat
        } else {
            1nat
        }
    }
}

/// Takes ownership of `x` and drops it here.
fn release<X>(x: X) {
}

/// The values of the completed branches, in the order of the branches.
pub open spec fn gathered<T>(values: Seq<Option<T>>) -> Seq<T> {
    Seq::new(values.len(), |j: int| values[j]->Some_0)
}

proof fn lemma_outstanding_bounds(status: Seq<Branch>)
    ensures
        outstanding(status) <= status.len(),
        outstanding(status) == 0 <==> forall|i: int|
            0 <= i < status.len() ==> status[i] == Branch::Completed,
        (forall|i: int| 0 <= i < status.len() ==> status[i] != Branch::Completed) ==> outstanding(
            status,
        ) == status.len(),
    decreases status.len(),
{
    if status.len() > 0 {
        let init = status.drop_last();
        lemma_outstanding_bounds(init);
        if outstanding(status) == 0 {
            assert forall|i: int| 0 <= i < status.len() implies status[i] == Branch::Completed by {
                if i < status.len() - 1 {
                    assert(init[i] == status[i]);
                }
            }
        }
        if forall|i: int| 0 <= i < status.len() ==> status[i] == Branch::Completed {
            assert forall|i: int| 0 <= i < init.len() implies init[i] == Branch::Completed by {
                assert(init[i] == status[i]);
            }
        }
        if forall|i: int| 0 <= i < status.len() ==> status[i] != Branch::Completed {
            assert forall|i: int| 0 <= i < init.len() implies init[i] != Branch::Completed by {
                assert(init[i] == status[i]);
            }
        }
    }
}

proof fn lemma_outstanding_complete(status: Seq<Branch>, i: int)
    requires
        0 <= i < status.len(),
        status[i] != Branch::Completed,
    ensures
        outstanding(status.update(i, Branch::Completed)) + 1 == outstanding(status),
    decreases status.len(),
{
    let next = status.update(i, Branch::Completed);
    if i == status.len() - 1 {
        assert(next.drop_last() =~= status.drop_last());
    } else {
        lemma_outstanding_complete(status.drop_last(), i);
        assert(next.drop_last() =~= status.drop_last().update(i, Branch::Completed));
    }
}

/// The branches of a started composite of `n` branches, after the branches
/// named in `order` have completed, in turn.
pub open spec fn status_after(n: nat, order: Seq<int>) -> Seq<Branch>
    decreases order.len(),
{
    if order.len() == 0 {
        Seq::new(n, |j: int| Branch::Running)
    } else {
        status_after(n, order.drop_last()).update(order.last(), Branch::Completed)
    }
}

/// Whether `order` names each of `n` branches exactly once: one order in
/// which their completions may arrive.
pub open spec fn is_completion_order(n: nat, order: Seq<int>) -> bool {
    &&& order.len() == n
    &&& forall|k: int| 0 <= k < n ==> 0 <= #[trigger] order[k] < n
    &&& forall|k1: int, k2: int| 0 <= k1 < k2 < n ==> order[k1] != order[k2]
}

proof fn lemma_status_after(n: nat, order: Seq<int>)
    requires
        forall|k: int| 0 <= k < order.len() ==> 0 <= #[trigger] order[k] < n,
    ensures
        status_after(n, order).len() == n,
        forall|j: int|
            0 <= j < n ==> (#[trigger] status_after(n, order)[j] == if order.contains(j) {
                Branch::Completed
            } else {
                Branch::Running
            }),
    decreases order.len(),
{
    if order.len() > 0 {
        let init = order.drop_last();
        lemma_status_after(n, init);
        assert forall|j: int| 0 <= j < n implies (#[trigger] status_after(n, order)[j] == if order.contains(j) {
            Branch::Completed
        } else {
            Branch::Running
        }) by {
            if j == order.last() {
                assert(order[order.len() - 1] == j);
            } else {
                if order.contains(j) {
                    let k = choose|k: int| 0 <= k < order.len() && order[k] == j;
                    assert(init[k] == j);
                }
                if init.contains(j) {
                    let k = choose|k: int| 0 <= k < init.len() && init[k] == j;
                    assert(order[k] == j);
                }
            }
        }
    }
}

/// Whatever the order in which the `n` branches of a started composite
/// complete (two sub-operations finishing on two threads are one such order
/// or the other), each completion finds its branch running, and the
/// completion that finds exactly one branch outstanding, which is the one
/// that makes the composite deliver, is the last one and no other. With no
/// branch, the composite delivers at `start`.
pub proof fn lemma_completions_fire_once(n: nat, order: Seq<int>)
    requires
        n >= 1,
        is_completion_order(n, order),
    ensures
        forall|k: int| 0 <= k < n ==> #[trigger] status_after(n, order.take(k))[order[k]] == Branch::Running,
        forall|k: int| 0 <= k < n ==> (outstanding(#[trigger] status_after(n, order.take(k))) == 1 <==> k == n - 1),
        outstanding(status_after(n, order)) == 0,
{
    assert forall|k: int| 0 <= k <= n implies outstanding(#[trigger] status_after(n, order.take(k))) == n - k by {
        lemma_outstanding_after(n, order, k);
    }
    assert forall|k: int| 0 <= k < n implies #[trigger] status_after(n, order.take(k))[order[k]] == Branch::Running by {
        lemma_status_after(n, order.take(k));
        assert(!order.take(k).contains(order[k]));
    }
    assert forall|k: int| 0 <= k < n implies (outstanding(#[trigger] status_after(n, order.take(k))) == 1 <==> k == n - 1) by {
        assert(outstanding(status_after(n, order.take(k))) == n - k);
    }
    assert(order.take(n as int) =~= order);
}

proof fn lemma_outstanding_after(n: nat, order: Seq<int>, k: int)
    requires
        is_completion_order(n, order),
        0 <= k <= n,
    ensures
        outstanding(status_after(n, order.take(k))) == n - k,
    decreases k,
{
    let prefix = order.take(k);
    if k == 0 {
        lemma_outstanding_bounds(status_after(n, prefix));
        assert(prefix.len() == 0);
    } else {
        lemma_outstanding_after(n, order, k - 1);
        let before = order.take(k - 1);
        assert(prefix.drop_last() =~= before);
        lemma_status_after(n, before);
        assert(!before.contains(order[k - 1]));
        lemma_outstanding_complete(status_after(n, before), order[k - 1]);
    }
}

/// The private state of a composite: one place per sub-sender for its
/// output, and the aggregation rule with the receiver, which only the last
/// completion takes.
pub struct State<T, O, F, R> {
    values: Vec<Option<T>>,
    continuation: CountDownSlot<(F, R)>,
    rule: Ghost<F>,
    receiver: Ghost<R>,
    delivery: Ghost<Option<(Vec<T>, O)>>,
}

/// A composite operation over `n` sub-operations that all deliver a `T`.
///
/// Each sub-operation reaches the composite by its position alone (an index
/// into the composite, never an address), and reports through `complete`.
/// Once every branch has completed, the rule `F` turns the gathered outputs,
/// in the order of the branches, into the composite's output, which goes to
/// the receiver `R` once. With no sub-operation, the rule runs at `start`.
///
/// The sub-operations are declared before the state, and so are dropped
/// first.
pub struct BasicOperation<T, O, F, R, Op> {
    sub_ops: Vec<Op>,
    status: Vec<Branch>,
    started: bool,
    state: State<T, O, F, R>,
}

/// Whether `rule` may run on any `n` gathered outputs, and whatever it makes
/// of them is accepted by `receiver`.
pub open spec fn rule_fits<T, O, F: FnOnce(Vec<T>) -> O, R: Receiver<O>>(
    n: nat,
    rule: F,
    receiver: R,
) -> bool {
    forall|vs: Vec<T>| #![trigger rule.requires((vs,))]
        vs@.len() == n ==> {
            &&& rule.requires((vs,))
            &&& forall|o: O| #[trigger] rule.ensures((vs,), o) ==> receiver.accepts(o)
        }
}

/// Whether `connect` may be called for each of `n` positions, and makes ready
/// operations.
pub open spec fn connects_ready<E, Op: Execution, C: Fn(usize) -> Result<Op, E>>(
    n: nat,
    connect: C,
) -> bool {
    &&& forall|i: usize| i < n ==> #[trigger] connect.requires((i,))
    &&& forall|i: usize, r: Result<Op, E>| #[trigger]
        connect.ensures((i,), r) ==> (r matches Ok(op) ==> op.ready())
}

/// Whether `connect` may succeed at position `i`.
pub open spec fn connected_at<E, Op, C: Fn(usize) -> Result<Op, E>>(connect: C, i: usize) -> bool {
    exists|op: Op| #[trigger] connect.ensures((i,), Ok::<Op, E>(op))
}

impl<T, O, F: FnOnce(Vec<T>) -> O, R: Receiver<O>, Op: Execution> BasicOperation<T, O, F, R, Op> {
    /// The number of sub-operations.
    pub open spec fn arity(&self) -> nat {
        self.status().len()
    }

    /// Where each branch stands.
    pub closed spec fn status(&self) -> Seq<Branch> {
        self.status@
    }

    /// Whether the composite was started.
    pub closed spec fn started(&self) -> bool {
        self.started
    }

    /// The outputs reported so far, by position, until the rule takes them.
    pub closed spec fn values(&self) -> Seq<Option<T>> {
        self.state.values@
    }

    /// The sub-operations that are connected and not started.
    pub closed spec fn pending(&self) -> Seq<Op> {
        self.sub_ops@
    }

    /// The aggregation rule the composite was built with.
    pub closed spec fn rule(&self) -> F {
        self.state.rule@
    }

    /// Once the rule has run: the outputs it ran on and what it delivered.
    /// The receiver the composite was connected to.
    pub closed spec fn receiver(&self) -> R {
        self.state.receiver@
    }

    /// Once the rule has run: the outputs it ran on and what it delivered.
    pub closed spec fn delivery(&self) -> Option<(Vec<T>, O)> {
        self.state.delivery@
    }

    /// Whether the rule and the receiver are still held here, not taken by
    /// a completion.
    pub closed spec fn holds_continuation(&self) -> bool {
        self.state.continuation.held() is Some
    }

    /// What a composite owns when it is torn down, at any point of its
    /// life: the rule and the receiver exactly when it has not delivered,
    /// and, once it has delivered, every branch has completed, so that
    /// `cancel` stops none. Before it has delivered, the branches that
    /// `cancel` stops are the ones that have not completed, and no branch
    /// that completed is stopped.
    pub proof fn lemma_teardown(&self)
        requires
            self.wf(),
        ensures
            self.holds_continuation() <==> !self.fired(),
            self.values().len() == self.arity(),
            self.pending().len() == if self.started() { 0 } else { self.arity() },
            self.fired() ==> forall|i: int| 0 <= i < self.arity() ==> self.status()[i] == Branch::Completed,
            !self.started() ==> forall|i: int| 0 <= i < self.arity() ==> self.status()[i] != Branch::Completed,
    {
        lemma_outstanding_bounds(self.status@);
    }

    /// Whether the composite has delivered to its receiver.
    pub open spec fn fired(&self) -> bool {
        self.delivery() is Some
    }

    /// Connects a composite of `n` branches in two phases. First its state
    /// is built: an empty place per branch, and the rule with the receiver
    /// under a countdown. Then branch `i` is connected by `connect(i)`, in
    /// the order of the positions. At the first failure nothing further is
    /// connected: the branches connected so far and the state are dropped,
    /// the receiver with them, and that failure is returned.
    pub fn new<E, C: Fn(usize) -> Result<Op, E>>(n: usize, rule: F, receiver: R, connect: &C) -> (r:
        Result<Self, E>)
        requires
            n <= isize::MAX,
            rule_fits(n as nat, rule, receiver),
            connects_ready(n as nat, *connect),
        ensures
            r matches Ok(op) ==> {
                &&& op.wf()
                &&& op.arity() == n
                &&& !op.started()
                &&& !op.fired()
                &&& op.rule() == rule
                &&& op.receiver() == receiver
                &&& forall|i: int| 0 <= i < n ==> op.status()[i] == Branch::Connected
                &&& op.values().len() == n
                &&& forall|i: int| 0 <= i < n ==> op.values()[i] is None
                &&& op.pending().len() == n
                &&& forall|i: int| 0 <= i < n ==> connect.ensures((i as usize,), Ok(#[trigger] op.pending()[i]))
            },
            r matches Err(e) ==> exists|k: usize|
                k < n && #[trigger] connect.ensures((k,), Err::<Op, E>(e)) && forall|i: usize|
                    i < k ==> #[trigger] connected_at(*connect, i),
    {
        // The state first.
        let mut values: Vec<Option<T>> = Vec::new();
        let mut status: Vec<Branch> = Vec::new();
        let mut i: usize = 0;
        while i < n
            invariant
                i <= n,
                values@.len() == i,
                status@.len() == i,
                forall|j: int| 0 <= j < i ==> values@[j] is None,
                forall|j: int| 0 <= j < i ==> status@[j] == Branch::Connected,
            decreases n - i,
        {
            values.push(None);
            status.push(Branch::Connected);
            i = i + 1;
        }
        let count: usize = if n == 0 { 1 } else { n };
        let state = State {
            values,
            continuation: CountDownSlot::new(count, (rule, receiver)),
            rule: Ghost(rule),
            receiver: Ghost(receiver),
            delivery: Ghost(None),
        };
        proof {
            lemma_outstanding_bounds(status@);
        }
        // Then the branches, in order.
        let mut sub_ops: Vec<Op> = Vec::new();
        let mut failure: Option<E> = None;
        let mut i: usize = 0;
        while i < n
            invariant_except_break
                failure is None,
            invariant
                i <= n,
                sub_ops@.len() == i,
                connects_ready(n as nat, *connect),
                forall|j: int| 0 <= j < i ==> connect.ensures((j as usize,), Ok(#[trigger] sub_ops@[j])),
                forall|j: int| 0 <= j < i ==> #[trigger] sub_ops@[j].ready(),
            ensures
                failure matches Some(e) ==> i < n && connect.ensures((i,), Err::<Op, E>(e)),
                failure is None ==> i == n && sub_ops@.len() == n
                    && (forall|j: int| 0 <= j < n ==> connect.ensures((j as usize,), Ok(#[trigger] sub_ops@[j])))
                    && (forall|j: int| 0 <= j < n ==> #[trigger] sub_ops@[j].ready()),
            decreases n - i,
        {
            let res = connect(i);
            match res {
                Ok(op) => {
                    sub_ops.push(op);
                    i = i + 1;
                },
                Err(e) => {
                    failure = Some(e);
                    break;
                },
            }
        }
        if let Some(e) = failure {
            // Roll back by hand: the branches connected so far go first,
            // then the state they were built for.
            release(sub_ops);
            release(state);
            let ghost k = i;
            let r: Result<Self, E> = Err(e);
            assert(r->Err_0 == e);
            assert(k < n && connect.ensures((k,), Err::<Op, E>(r->Err_0)));
            assert forall|j: usize| j < k implies #[trigger] connected_at(*connect, j) by {
                assert(connect.ensures((j,), Ok::<Op, E>(sub_ops@[j as int])));
            }
            return r;
        }
        Ok(BasicOperation { sub_ops, status, started: false, state })
    }

    /// Starts every sub-operation, depth-first and left to right, on the
    /// calling thread. A composite with no sub-operation delivers here: its
    /// rule runs on no outputs, and the receiver gets the result.
    pub fn start(&mut self) -> (fired: bool)
        requires
            old(self).wf(),
            !old(self).started(),
        ensures
            final(self).wf(),
            final(self).started(),
            final(self).arity() == old(self).arity(),
            final(self).rule() == old(self).rule(),
            final(self).receiver() == old(self).receiver(),
            final(self).pending().len() == 0,
            forall|i: int| 0 <= i < old(self).arity() ==> #[trigger] old(self).pending()[i].ran(),
            forall|i: int| 0 <= i < old(self).arity() ==> final(self).status()[i] == Branch::Running,
            outstanding(final(self).status()) == old(self).arity(),
            fired == (old(self).arity() == 0),
            fired == final(self).fired(),
            !fired ==> final(self).values() == old(self).values() && final(self).delivery()
                == old(self).delivery(),
            fired ==> (final(self).delivery() matches Some((vs, o)) && vs@.len() == 0
                && final(self).rule().ensures((vs,), o) && final(self).receiver().completed_with(o)),
    {
        let mut ops: Vec<Op> = Vec::new();
        std::mem::swap(&mut ops, &mut self.sub_ops);
        let ghost orig = ops@;
        let n = self.status.len();
        let mut i: usize = 0;
        while i < n
            invariant
                i <= n,
                n == self.status@.len(),
                orig.len() == n,
                ops@ == orig.subrange(i as int, n as int),
                forall|k: int| 0 <= k < n ==> #[trigger] orig[k].ready(),
                forall|k: int| 0 <= k < i ==> #[trigger] orig[k].ran(),
                forall|k: int| 0 <= k < i ==> self.status@[k] == Branch::Running,
                forall|k: int| i <= k < n ==> self.status@[k] == old(self).status@[k],
                self.sub_ops@.len() == 0,
                self.started == old(self).started,
                self.state == old(self).state,
            decreases n - i,
        {
            let op = ops.remove(0);
            assert(op == orig[i as int]);
            self.status.set(i, Branch::Running);
            op.execute();
            i = i + 1;
        }
        self.started = true;
        proof {
            lemma_outstanding_bounds(self.status@);
            lemma_outstanding_bounds(old(self).status@);
            assert forall|j: int| 0 <= j < n implies (#[trigger] self.status@[j] == Branch::Completed
                <==> self.state.values@[j] is Some) by {
                assert(old(self).status@[j] == Branch::Connected);
            }
        }
        if n == 0 {
            self.fire()
        } else {
            false
        }
    }

    /// Routes the output of the sub-operation at `c.index` into its place.
    /// The completion that leaves no branch outstanding runs the rule on the
    /// outputs of all branches, in the order of the branches, and hands the
    /// result to the receiver; every other completion only records.
    pub fn complete(&mut self, c: Sum<T>) -> (fired: bool)
        requires
            old(self).wf(),
            c.index < old(self).arity(),
            old(self).status()[c.index as int] == Branch::Running,
        ensures
            final(self).wf(),
            final(self).arity() == old(self).arity(),
            final(self).started() == old(self).started(),
            final(self).rule() == old(self).rule(),
            final(self).receiver() == old(self).receiver(),
            final(self).values().len() == final(self).arity(),
            final(self).status() == old(self).status().update(c.index as int, Branch::Completed),
            outstanding(final(self).status()) + 1 == outstanding(old(self).status()),
            fired == (outstanding(old(self).status()) == 1),
            fired == final(self).fired(),
            !fired ==> final(self).values() == old(self).values().update(c.index as int, Some(c.value))
                && final(self).delivery() == old(self).delivery(),
            fired ==> (final(self).delivery() matches Some((vs, o)) && vs@ == gathered(
                old(self).values().update(c.index as int, Some(c.value)),
            ) && final(self).rule().ensures((vs,), o) && final(self).receiver().completed_with(o)),
    {
        let i = c.index;
        proof {
            lemma_outstanding_bounds(self.status@);
            lemma_outstanding_complete(self.status@, i as int);
        }
        self.status.set(i, Branch::Completed);
        self.state.values.set(i, Some(c.value));
        proof {
            lemma_outstanding_bounds(self.status@);
            if outstanding(self.status@) == 0 {
                assert forall|j: int| 0 <= j < self.status@.len() implies #[trigger] self.state.values@[j] is Some by {
                    if j != i {
                        assert(self.status@[j] == Branch::Completed);
                        assert(old(self).status@[j] == Branch::Completed);
                    }
                }
            }
        }
        let fired = self.fire();
        fired
    }

    /// Tears the composite down before it has delivered, or after. Every
    /// branch that has not completed is stopped: its position is returned,
    /// in increasing order, and no completion of it is routed any more. The
    /// pending sub-operations, the outputs and, unless it has run, the rule
    /// with the receiver are dropped here, each once.
    pub fn cancel(self) -> (stopped: Vec<usize>)
        requires
            self.wf(),
        ensures
            forall|k: int| 0 <= k < stopped@.len() ==> #[trigger] stopped@[k] < self.arity()
                && self.status()[stopped@[k] as int] != Branch::Completed,
            forall|k1: int, k2: int|
                0 <= k1 < k2 < stopped@.len() ==> stopped@[k1] < stopped@[k2],
            forall|i: int|
                0 <= i < self.arity() && self.status()[i] != Branch::Completed ==> exists|k: int|
                    0 <= k < stopped@.len() && #[trigger] stopped@[k] == i,
    {
        let BasicOperation { sub_ops, status, started, state } = self;
        release(sub_ops);
        let mut stopped: Vec<usize> = Vec::new();
        let n = status.len();
        let mut i: usize = 0;
        while i < n
            invariant
                i <= n,
                n == status@.len(),
                status@ == self.status@,
                forall|k: int| 0 <= k < stopped@.len() ==> #[trigger] stopped@[k] < i
                    && status@[stopped@[k] as int] != Branch::Completed,
                forall|k1: int, k2: int|
                    0 <= k1 < k2 < stopped@.len() ==> stopped@[k1] < stopped@[k2],
                forall|j: int|
                    0 <= j < i && status@[j] != Branch::Completed ==> exists|k: int|
                        0 <= k < stopped@.len() && #[trigger] stopped@[k] == j,
            decreases n - i,
        {
            let ghost before = stopped@;
            if status[i] != Branch::Completed {
                stopped.push(i);
                assert(stopped@[stopped@.len() - 1] == i);
            }
            assert forall|j: int|
                0 <= j < i + 1 && status@[j] != Branch::Completed implies exists|k: int|
                    0 <= k < stopped@.len() && #[trigger] stopped@[k] == j by {
                if j < i {
                    let k = choose|k: int| 0 <= k < before.len() && #[trigger] before[k] == j;
                    assert(stopped@[k] == j);
                } else {
                    assert(stopped@[stopped@.len() - 1] == j);
                }
            }
            i = i + 1;
        }
        release(state);
        stopped
    }

    /// The number of sub-operations.
    pub fn len(&self) -> (n: usize)
        requires
            self.wf(),
        ensures
            n == self.arity(),
    {
        self.status.len()
    }

    /// Where the branch at position `i` stands.
    pub fn branch(&self, i: usize) -> (b: Branch)
        requires
            self.wf(),
            i < self.arity(),
        ensures
            b == self.status()[i as int],
    {
        self.status[i]
    }

    /// How the branches reach the state: alone, or shared between branches
    /// that may complete concurrently, whose completions must then be
    /// ordered by the caller (one lock around the composite, say).
    pub fn place(&self) -> (p: Place)
        requires
            self.wf(),
        ensures
            p == spec_place_for(self.arity()),
    {
        place_for(self.status.len())
    }

    /// Whether the composite was started.
    pub fn is_started(&self) -> (b: bool)
        ensures
            b == self.started(),
    {
        self.started
    }

    /// Makes one claim on the countdown. The claim that brings it to zero
    /// takes the rule and the receiver, runs the rule on the gathered
    /// outputs and hands its result to the receiver.
    fn fire(&mut self) -> (fired: bool)
        requires
            old(self).state.continuation.wf(),
            old(self).state.continuation.remaining() >= 1,
            old(self).state.continuation.held() matches Some((rule, receiver)) && rule
                == old(self).state.rule@ && receiver == old(self).state.receiver@ && rule_fits(
                old(self).state.values@.len() as nat,
                rule,
                receiver,
            ),
            claim_yields(old(self).state.continuation.remaining()) ==> forall|i: int|
                0 <= i < old(self).state.values@.len() ==> #[trigger] old(self).state.values@[i] is Some,
        ensures
            final(self).status@ == old(self).status@,
            final(self).sub_ops@ == old(self).sub_ops@,
            final(self).started == old(self).started,
            final(self).state.rule == old(self).state.rule,
            final(self).state.receiver == old(self).state.receiver,
            final(self).state.values@.len() == old(self).state.values@.len(),
            final(self).state.continuation.wf(),
            final(self).state.continuation.remaining() == count_after_claim(
                old(self).state.continuation.remaining(),
            ),
            fired == claim_yields(old(self).state.continuation.remaining()),
            !fired ==> {
                &&& final(self).state.values@ == old(self).state.values@
                &&& final(self).state.delivery == old(self).state.delivery
                &&& final(self).state.continuation.held() == old(self).state.continuation.held()
            },
            fired ==> {
                &&& final(self).state.continuation.held() is None
                &&& final(self).state.delivery@ matches Some((vs, o)) && vs@ == gathered(
                    old(self).state.values@,
                ) && old(self).state.rule@.ensures((vs,), o)
                    && old(self).state.receiver@.completed_with(o)
            },
    {
        match self.state.continuation.take() {
            None => false,
            Some((rule, receiver)) => {
                let ghost orig = self.state.values@;
                let ghost slot_after = self.state.continuation;
                let n = self.state.values.len();
                let mut outputs: Vec<T> = Vec::new();
                let mut j: usize = 0;
                while j < n
                    invariant
                        j <= n,
                        n == orig.len(),
                        self.status@ == old(self).status@,
                        self.sub_ops@ == old(self).sub_ops@,
                        self.started == old(self).started,
                        self.state.rule == old(self).state.rule,
                        self.state.receiver == old(self).state.receiver,
                        self.state.continuation == slot_after,
                        rule_fits(n as nat, rule, receiver),
                        self.state.values@.len() == n,
                        forall|k: int| j <= k < n ==> self.state.values@[k] == orig[k],
                        forall|k: int| 0 <= k < n ==> #[trigger] orig[k] is Some,
                        outputs@ =~= gathered(orig).subrange(0, j as int),
                    decreases n - j,
                {
                    let mut out: Option<T> = None;
                    assert(orig[j as int] is Some);
                    self.state.values.set_and_swap(j, &mut out);
                    match out {
                        Some(v) => outputs.push(v),
                        None => {},
                    }
                    j = j + 1;
                }
                assert(outputs@ =~= gathered(orig));
                let ghost inputs = outputs;
                let o = rule(outputs);
                assert(inputs@.len() == n);
                assert(rule.requires((inputs,)));
                assert(rule.ensures((inputs,), o));
                self.state.delivery = Ghost(Some((inputs, o)));
                receiver.set(o);
                true
            },
        }
    }

    pub closed spec fn wf(&self) -> bool {
        let n = self.status@.len();
        let slot = self.state.continuation;
        let fired = self.state.delivery@ is Some;
        &&& slot.wf()
        &&& self.state.values@.len() == n
        &&& self.sub_ops@.len() == if self.started { 0 } else { n }
        &&& forall|i: int| 0 <= i < n ==> (#[trigger] self.status@[i] == Branch::Connected <==> !self.started)
        &&& forall|i: int| 0 <= i < self.sub_ops@.len() ==> #[trigger] self.sub_ops@[i].ready()
        &&& !fired ==> forall|i: int|
            0 <= i < n ==> (#[trigger] self.status@[i] == Branch::Completed <==> self.state.values@[i] is Some)
        &&& n > 0 ==> slot.remaining() == outstanding(self.status@)
        &&& n == 0 ==> slot.remaining() == if self.started { 0nat } else { 1nat }
        &&& (slot.remaining() == 0 <==> fired)
        &&& (slot.held() is Some <==> !fired)
        &&& (slot.held() matches Some((rule, receiver)) ==> rule == self.state.rule@ && receiver
            == self.state.receiver@ && rule_fits(n, rule, receiver))
        &&& (self.state.delivery@ matches Some((vs, o)) ==> vs@.len() == n && self.state.rule@.ensures((vs,), o)
            && self.state.receiver@.completed_with(o))
    }
}

} // verus!
