use vstd::prelude::*;

use crate::orders::{ClassifiedOrder, FulfillError, OrderFailure};
use crate::request_id::RequestId;

verus! {

/// What one fetch-verify-classify task handed back.
pub type TaskOutcome = Result<ClassifiedOrder, FulfillError>;

/// The positions of the requests that still need pricing: those not locked,
/// in increasing order.
pub open spec fn unlocked_indices(locked: Seq<bool>) -> Seq<int>
    decreases locked.len(),
{
    if locked.len() == 0 {
        Seq::empty()
    } else {
        let rest = unlocked_indices(locked.drop_last());
        if locked.last() {
            rest
        } else {
            rest.push(locked.len() - 1)
        }
    }
}

/// The priced subset holds exactly the unlocked positions, each once, in the
/// order of the batch.
pub proof fn lemma_priced_subset(locked: Seq<bool>)
    ensures
        forall|k: int|
            0 <= k < unlocked_indices(locked).len() ==> {
                let i = #[trigger] unlocked_indices(locked)[k];
                0 <= i < locked.len() && !locked[i]
            },
        forall|k: int, l: int|
            0 <= k < l < unlocked_indices(locked).len() ==> #[trigger] unlocked_indices(locked)[k]
                < #[trigger] unlocked_indices(locked)[l],
        forall|i: int|
            0 <= i < locked.len() && !locked[i] ==> #[trigger] unlocked_indices(locked).contains(i),
    decreases locked.len(),
{
    if locked.len() > 0 {
        let prefix = locked.drop_last();
        lemma_priced_subset(prefix);
        let rest = unlocked_indices(prefix);
        let u = unlocked_indices(locked);
        assert forall|k: int| 0 <= k < u.len() implies {
            let i = #[trigger] u[k];
            0 <= i < locked.len() && !locked[i]
        } by {
            if k < rest.len() {
                assert(u[k] == rest[k]);
                assert(prefix[rest[k]] == locked[rest[k]]);
            }
        }
        assert forall|k: int, l: int| 0 <= k < l < u.len() implies #[trigger] u[k] < #[trigger] u[l] by {
            assert(u[k] == rest[k]);
            if l < rest.len() {
                assert(u[l] == rest[l]);
            } else {
                assert(0 <= rest[k] < prefix.len());
            }
        }
        assert forall|i: int| 0 <= i < locked.len() && !locked[i] implies #[trigger] u.contains(i) by {
            if i < prefix.len() {
                assert(prefix[i] == locked[i]);
                assert(rest.contains(i));
                let k = choose|k: int| 0 <= k < rest.len() && rest[k] == i;
                assert(u[k] == i);
            } else {
                assert(u[u.len() - 1] == i);
            }
        }
    }
}

/// A batch ready for aggregation: the orders in the order their ids were
/// given, their signatures, their lock states, and the positions to price.
#[derive(Debug)]
pub struct FulfillmentBatch {
    pub request_ids: Vec<RequestId>,
    pub signatures: Vec<Vec<u8>>,
    pub locked: Vec<bool>,
    pub priced: Vec<usize>,
}

impl FulfillmentBatch {
    /// The sequences line up and `priced` is the unlocked subset.
    pub open spec fn wf(&self) -> bool {
        &&& self.signatures@.len() == self.request_ids@.len()
        &&& self.locked@.len() == self.request_ids@.len()
        &&& self.priced@.len() == unlocked_indices(self.locked@).len()
        &&& forall|k: int|
            0 <= k < self.priced@.len() ==> #[trigger] self.priced@[k] as int == unlocked_indices(
                self.locked@,
            )[k]
    }

    /// The signatures of the priced requests, in the same order.
    pub fn priced_signatures(&self) -> (r: Vec<Vec<u8>>)
        requires
            self.wf(),
        ensures
            r@.len() == self.priced@.len(),
            forall|k: int|
                0 <= k < r@.len() ==> (#[trigger] r@[k])@ == self.signatures@[self.priced@[k] as int]@,
    {
        proof {
            lemma_priced_subset(self.locked@);
        }
        let mut out: Vec<Vec<u8>> = Vec::new();
        let mut k: usize = 0;
        while k < self.priced.len()
            invariant
                self.wf(),
                forall|j: int|
                    0 <= j < unlocked_indices(self.locked@).len() ==> {
                        let i = #[trigger] unlocked_indices(self.locked@)[j];
                        0 <= i < self.locked@.len()
                    },
                k <= self.priced@.len(),
                out@.len() == k,
                forall|j: int|
                    0 <= j < k ==> (#[trigger] out@[j])@ == self.signatures@[self.priced@[j] as int]@,
            decreases self.priced@.len() - k,
        {
            let i = self.priced[k];
            assert(self.priced@[k as int] as int == unlocked_indices(self.locked@)[k as int]);
            out.push(copy_vec(&self.signatures[i]));
            k = k + 1;
        }
        out
    }
}

/// A copy of `v`, element by element.
pub(crate) fn copy_vec<T: Copy>(v: &Vec<T>) -> (r: Vec<T>)
    ensures
        r@ == v@,
{
    let mut r: Vec<T> = Vec::new();
    let mut i: usize = 0;
    while i < v.len()
        invariant
            i <= v@.len(),
            r@ == v@.subrange(0, i as int),
        decreases v@.len() - i,
    {
        r.push(v[i]);
        i = i + 1;
        assert(r@ =~= v@.subrange(0, i as int));
    }
    assert(r@ =~= v@);
    r
}

/// What makes the task at `index` fail the batch, if anything: its own
/// failure, or an order that is not the one that was asked for.
pub open spec fn outcome_failure(expected: RequestId, index: int, o: TaskOutcome) -> Option<
    FulfillError,
> {
    match o {
        Err(e) => Some(e),
        Ok(c) => if c.order@.0 == expected {
            None
        } else {
            Some(FulfillError::Order { index: index as usize, failure: OrderFailure::Malformed })
        },
    }
}

/// The failure of the first of the first `n` tasks that failed.
pub open spec fn first_failure(ids: Seq<RequestId>, outcomes: Seq<TaskOutcome>, n: nat) -> Option<
    FulfillError,
>
    decreases n,
{
    if n == 0 {
        None
    } else {
        match first_failure(ids, outcomes, (n - 1) as nat) {
            Some(e) => Some(e),
            None => outcome_failure(ids[n - 1], n - 1, outcomes[n - 1]),
        }
    }
}

/// The signature a task returned, for a task that succeeded.
pub open spec fn signature_of(o: TaskOutcome) -> Seq<u8> {
    match o {
        Ok(c) => c.order@.1,
        Err(_) => Seq::empty(),
    }
}

/// The lock state of each task, for tasks that succeeded.
pub open spec fn lock_states(outcomes: Seq<TaskOutcome>) -> Seq<bool> {
    outcomes.map_values(|o: TaskOutcome| o matches Ok(c) && c.locked)
}

/// Joins the results of all tasks of a batch, in the order of the request
/// ids. Any failed task fails the batch (the first one by position is
/// reported); otherwise every order lines up with its id and the unlocked
/// ones form the priced subset.
pub fn assemble_batch(request_ids: &Vec<RequestId>, outcomes: &Vec<TaskOutcome>) -> (r: Result<
    FulfillmentBatch,
    FulfillError,
>)
    requires
        outcomes@.len() == request_ids@.len(),
    ensures
        first_failure(request_ids@, outcomes@, outcomes@.len()) matches Some(e) ==> r == Err::<
            FulfillmentBatch,
            FulfillError,
        >(e),
        first_failure(request_ids@, outcomes@, outcomes@.len()) is None ==> r is Ok,
        r matches Ok(b) ==> {
            &&& b.wf()
            &&& b.request_ids@ == request_ids@
            &&& b.locked@ == lock_states(outcomes@)
            &&& forall|i: int|
                0 <= i < outcomes@.len() ==> (#[trigger] b.signatures@[i])@ == signature_of(outcomes@[i])
        },
{
    let n = outcomes.len();
    let mut ids: Vec<RequestId> = Vec::new();
    let mut signatures: Vec<Vec<u8>> = Vec::new();
    let mut locked: Vec<bool> = Vec::new();
    let mut priced: Vec<usize> = Vec::new();
    let mut i: usize = 0;
    while i < n
        invariant
            n == outcomes@.len(),
            n == request_ids@.len(),
            i <= n,
            first_failure(request_ids@, outcomes@, i as nat) is None,
            ids@ == request_ids@.subrange(0, i as int),
            signatures@.len() == i,
            locked@ == lock_states(outcomes@).subrange(0, i as int),
            forall|j: int|
                0 <= j < i ==> (#[trigger] signatures@[j])@ == signature_of(outcomes@[j]),
            priced@.len() == unlocked_indices(locked@).len(),
            forall|k: int|
                0 <= k < priced@.len() ==> #[trigger] priced@[k] as int == unlocked_indices(
                    locked@,
                )[k],
        decreases n - i,
    {
        match &outcomes[i] {
            Err(e) => {
                assert(first_failure(request_ids@, outcomes@, (i + 1) as nat) == Some(*e));
                proof {
                    lemma_first_failure_stays(request_ids@, outcomes@, (i + 1) as nat, n as nat);
                }
                return Err(*e);
            },
            Ok(c) => {
                if c.order.request_id() != request_ids[i] {
                    let e = FulfillError::Order { index: i, failure: OrderFailure::Malformed };
                    assert(first_failure(request_ids@, outcomes@, (i + 1) as nat) == Some(e));
                    proof {
                        lemma_first_failure_stays(
                            request_ids@,
                            outcomes@,
                            (i + 1) as nat,
                            n as nat,
                        );
                    }
                    return Err(e);
                }
                let ghost old_locked = locked@;
                ids.push(request_ids[i]);
                signatures.push(copy_vec(c.order.signature()));
                locked.push(c.locked);
                if !c.locked {
                    priced.push(i);
                }
                assert(first_failure(request_ids@, outcomes@, (i + 1) as nat) is None);
                assert(ids@ =~= request_ids@.subrange(0, i + 1));
                assert(locked@ =~= lock_states(outcomes@).subrange(0, i + 1));
                assert(locked@.drop_last() =~= old_locked);
                i = i + 1;
            },
        }
    }
    assert(ids@ =~= request_ids@);
    assert(locked@ =~= lock_states(outcomes@));
    Ok(FulfillmentBatch { request_ids: ids, signatures, locked, priced })
}

proof fn lemma_first_failure_stays(
    ids: Seq<RequestId>,
    outcomes: Seq<TaskOutcome>,
    m: nat,
    n: nat,
)
    requires
        m <= n,
        first_failure(ids, outcomes, m) is Some,
    ensures
        first_failure(ids, outcomes, n) == first_failure(ids, outcomes, m),
    decreases n - m,
{
    if m < n {
        lemma_first_failure_stays(ids, outcomes, m, (n - 1) as nat);
    }
}

/// A batch in which any task failed is not assembled, whatever the other
/// tasks returned.
pub proof fn lemma_any_failure_aborts(ids: Seq<RequestId>, outcomes: Seq<TaskOutcome>, i: int)
    requires
        outcomes.len() == ids.len(),
        0 <= i < outcomes.len(),
        outcomes[i] is Err,
    ensures
        first_failure(ids, outcomes, outcomes.len()) is Some,
    decreases outcomes.len() - i,
{
    lemma_failure_seen(ids, outcomes, i, (i + 1) as nat);
    lemma_first_failure_stays(ids, outcomes, (i + 1) as nat, outcomes.len());
}

proof fn lemma_failure_seen(ids: Seq<RequestId>, outcomes: Seq<TaskOutcome>, i: int, n: nat)
    requires
        n == i + 1,
        0 <= i,
        outcomes[i] is Err,
    ensures
        first_failure(ids, outcomes, n) is Some,
{
}

} // verus!
