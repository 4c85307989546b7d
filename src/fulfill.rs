use vstd::prelude::*;

use crate::batch::{assemble_batch, copy_vec, first_failure, lock_states, signature_of, FulfillmentBatch, TaskOutcome};
use crate::orders::{hint_at, hints_mismatch, plan_lookups, FulfillError, HintField, OrderLookup};
use crate::request_id::RequestId;

verus! {

/// Where a fulfillment session stands.
#[derive(Clone, Copy, Debug, PartialEq, Eq, Structural)]
pub enum FulfillPhase {
    /// Waiting for the results of all fetch-verify-classify tasks.
    Fetching,
    /// Waiting for the aggregated proof over the whole batch.
    Aggregating,
    /// Waiting for the aggregation root to be committed on chain.
    CommittingRoot,
    /// Waiting for the price-and-fulfill transaction.
    Fulfilling,
    /// The batch was fulfilled.
    Done,
    /// The batch was abandoned; nothing more is sent.
    Failed,
}

/// What the driver of a session is to do next.
#[derive(Debug)]
pub enum FulfillAction {
    /// Run one fetch-verify-classify task per lookup and return every result
    /// together, in the same order.
    FetchOrders(Vec<OrderLookup>),
    /// Aggregate proofs for all orders of the batch, in batch order.
    Aggregate,
    /// Commit the aggregation root and its seal on chain.
    SubmitRoot,
    /// Send one transaction pricing the requests at `priced` (positions in
    /// the batch) with their `signatures`, and fulfilling the whole batch.
    PriceAndFulfill { priced: Vec<usize>, signatures: Vec<Vec<u8>> },
    /// The batch is fulfilled.
    Finish,
    /// Stop and report the error; nothing more is sent.
    Abort(FulfillError),
}

/// What a session knows.
pub struct FulfillView {
    pub request_ids: Seq<RequestId>,
    pub phase: FulfillPhase,
    pub batch: Option<FulfillmentBatch>,
}

/// Drives one fulfillment batch: fetch and check every order, aggregate one
/// proof, commit its root, then price and fulfill in a single transaction.
/// Any failure ends the session before the next phase.
#[derive(Debug)]
pub struct FulfillSession {
    request_ids: Vec<RequestId>,
    phase: FulfillPhase,
    batch: Option<FulfillmentBatch>,
}

impl View for FulfillSession {
    type V = FulfillView;

    closed spec fn view(&self) -> FulfillView {
        FulfillView { request_ids: self.request_ids@, phase: self.phase, batch: self.batch }
    }
}

/// True once the orders of the batch have been assembled.
pub open spec fn past_fetch(phase: FulfillPhase) -> bool {
    phase == FulfillPhase::Aggregating || phase == FulfillPhase::CommittingRoot || phase
        == FulfillPhase::Fulfilling || phase == FulfillPhase::Done
}

fn same_ids(a: &Vec<RequestId>, b: &Vec<RequestId>) -> (r: bool)
    ensures
        r == (a@ == b@),
{
    if a.len() != b.len() {
        return false;
    }
    let mut i: usize = 0;
    while i < a.len()
        invariant
            a@.len() == b@.len(),
            i <= a@.len(),
            forall|j: int| 0 <= j < i ==> a@[j] == b@[j],
        decreases a@.len() - i,
    {
        if a[i] != b[i] {
            return false;
        }
        i = i + 1;
    }
    assert(a@ =~= b@);
    true
}

impl FulfillSession {
    /// Once past fetching, the session holds a well-formed batch over its ids.
    pub open spec fn wf(&self) -> bool {
        past_fetch(self@.phase) ==> {
            &&& self@.batch matches Some(b)
            &&& b.wf()
            &&& b.request_ids@ == self@.request_ids
        }
    }

    /// Opens a session for `request_ids` with optional parallel hints. When a
    /// hint array does not have one entry per id the session fails at once
    /// and asks for no network call.
    pub fn start(
        request_ids: Vec<RequestId>,
        request_digests: &Option<Vec<[u8; 32]>>,
        tx_hashes: &Option<Vec<[u8; 32]>>,
    ) -> (r: (FulfillSession, FulfillAction))
        ensures
            r.0.wf(),
            r.0@.request_ids == request_ids@,
            hints_mismatch(*request_digests, request_ids@.len() as int) ==> r.0@.phase
                == FulfillPhase::Failed && r.1 == FulfillAction::Abort(
                FulfillError::LengthMismatch {
                    field: HintField::RequestDigests,
                    request_ids: request_ids.len(),
                    found: request_digests->0.len(),
                },
            ),
            !hints_mismatch(*request_digests, request_ids@.len() as int) && hints_mismatch(
                *tx_hashes,
                request_ids@.len() as int,
            ) ==> r.0@.phase == FulfillPhase::Failed && r.1 == FulfillAction::Abort(
                FulfillError::LengthMismatch {
                    field: HintField::TxHashes,
                    request_ids: request_ids.len(),
                    found: tx_hashes->0.len(),
                },
            ),
            !hints_mismatch(*request_digests, request_ids@.len() as int) && !hints_mismatch(
                *tx_hashes,
                request_ids@.len() as int,
            ) ==> {
                &&& r.0@.phase == FulfillPhase::Fetching
                &&& r.1 matches FulfillAction::FetchOrders(lookups)
                &&& lookups@.len() == request_ids@.len()
                &&& forall|i: int|
                    0 <= i < lookups@.len() ==> {
                        &&& (#[trigger] lookups@[i]).request_id == request_ids@[i]
                        &&& lookups@[i].tx_hash == hint_at(*tx_hashes, i)
                        &&& lookups@[i].request_digest == hint_at(*request_digests, i)
                    }
            },
    {
        match plan_lookups(&request_ids, request_digests, tx_hashes) {
            Err(e) => (
                FulfillSession { request_ids, phase: FulfillPhase::Failed, batch: None },
                FulfillAction::Abort(e),
            ),
            Ok(lookups) => (
                FulfillSession { request_ids, phase: FulfillPhase::Fetching, batch: None },
                FulfillAction::FetchOrders(lookups),
            ),
        }
    }

    /// Takes the results of all tasks, in the order of the lookups. Any
    /// failure (a fetch, a bad signature, a chain call, an order other than
    /// the one asked for) fails the whole batch; otherwise the batch is
    /// assembled and proofs are to be aggregated.
    pub fn on_orders(&mut self, outcomes: Vec<TaskOutcome>) -> (action: FulfillAction)
        requires
            old(self).wf(),
            old(self)@.phase == FulfillPhase::Fetching,
            outcomes@.len() == old(self)@.request_ids.len(),
        ensures
            final(self).wf(),
            final(self)@.request_ids == old(self)@.request_ids,
            first_failure(old(self)@.request_ids, outcomes@, outcomes@.len()) matches Some(e)
                ==> final(self)@.phase == FulfillPhase::Failed && action == FulfillAction::Abort(e),
            first_failure(old(self)@.request_ids, outcomes@, outcomes@.len()) is None ==> {
                &&& final(self)@.phase == FulfillPhase::Aggregating
                &&& action == FulfillAction::Aggregate
                &&& final(self)@.batch matches Some(b)
                &&& b.locked@ == lock_states(outcomes@)
                &&& forall|i: int|
                    0 <= i < outcomes@.len() ==> (#[trigger] b.signatures@[i])@ == signature_of(
                        outcomes@[i],
                    )
            },
    {
        match assemble_batch(&self.request_ids, &outcomes) {
            Err(e) => {
                self.phase = FulfillPhase::Failed;
                FulfillAction::Abort(e)
            },
            Ok(b) => {
                self.batch = Some(b);
                self.phase = FulfillPhase::Aggregating;
                FulfillAction::Aggregate
            },
        }
    }

    /// Takes the ids of the fills the aggregation prover produced, or `None`
    /// when it failed. The fills must line up with the batch position by
    /// position; then the root is to be committed.
    pub fn on_aggregated(&mut self, fill_ids: Option<Vec<RequestId>>) -> (action: FulfillAction)
        requires
            old(self).wf(),
            old(self)@.phase == FulfillPhase::Aggregating,
        ensures
            final(self).wf(),
            final(self)@.request_ids == old(self)@.request_ids,
            final(self)@.batch == old(self)@.batch,
            (fill_ids matches Some(f) && f@ == old(self)@.request_ids) ==> final(self)@.phase
                == FulfillPhase::CommittingRoot && action == FulfillAction::SubmitRoot,
            !(fill_ids matches Some(f) && f@ == old(self)@.request_ids) ==> final(self)@.phase
                == FulfillPhase::Failed && action == FulfillAction::Abort(
                FulfillError::Aggregation,
            ),
    {
        let lined_up = match &fill_ids {
            Some(f) => same_ids(f, &self.request_ids),
            None => false,
        };
        if lined_up {
            self.phase = FulfillPhase::CommittingRoot;
            FulfillAction::SubmitRoot
        } else {
            self.phase = FulfillPhase::Failed;
            FulfillAction::Abort(FulfillError::Aggregation)
        }
    }

    /// Takes whether the root commitment was confirmed. Only then is the
    /// price-and-fulfill transaction sent, carrying the priced subset and the
    /// signatures of exactly those requests.
    pub fn on_root_submitted(&mut self, committed: bool) -> (action: FulfillAction)
        requires
            old(self).wf(),
            old(self)@.phase == FulfillPhase::CommittingRoot,
        ensures
            final(self).wf(),
            final(self)@.request_ids == old(self)@.request_ids,
            final(self)@.batch == old(self)@.batch,
            !committed ==> final(self)@.phase == FulfillPhase::Failed && action
                == FulfillAction::Abort(FulfillError::RootSubmission),
            committed ==> {
                &&& final(self)@.phase == FulfillPhase::Fulfilling
                &&& action matches FulfillAction::PriceAndFulfill { priced, signatures }
                &&& old(self)@.batch matches Some(b)
                &&& priced@ == b.priced@
                &&& signatures@.len() == priced@.len()
                &&& forall|k: int|
                    0 <= k < signatures@.len() ==> (#[trigger] signatures@[k])@
                        == b.signatures@[priced@[k] as int]@
            },
    {
        if !committed {
            self.phase = FulfillPhase::Failed;
            return FulfillAction::Abort(FulfillError::RootSubmission);
        }
        let b = self.batch.as_ref().unwrap();
        let signatures = b.priced_signatures();
        let priced = copy_vec(&b.priced);
        self.phase = FulfillPhase::Fulfilling;
        FulfillAction::PriceAndFulfill { priced, signatures }
    }

    /// Takes whether the price-and-fulfill transaction succeeded.
    pub fn on_fulfilled(&mut self, fulfilled: bool) -> (action: FulfillAction)
        requires
            old(self).wf(),
            old(self)@.phase == FulfillPhase::Fulfilling,
        ensures
            final(self).wf(),
            final(self)@.request_ids == old(self)@.request_ids,
            final(self)@.batch == old(self)@.batch,
            fulfilled ==> final(self)@.phase == FulfillPhase::Done && action
                == FulfillAction::Finish,
            !fulfilled ==> final(self)@.phase == FulfillPhase::Failed && action
                == FulfillAction::Abort(FulfillError::Fulfillment),
    {
        if fulfilled {
            self.phase = FulfillPhase::Done;
            FulfillAction::Finish
        } else {
            self.phase = FulfillPhase::Failed;
            FulfillAction::Abort(FulfillError::Fulfillment)
        }
    }

    pub fn phase(&self) -> (r: FulfillPhase)
        ensures
            r == self@.phase,
    {
        self.phase
    }

    pub fn request_ids(&self) -> (r: &Vec<RequestId>)
        ensures
            r@ == self@.request_ids,
    {
        &self.request_ids
    }

    /// The assembled batch, once the orders are in.
    pub fn batch(&self) -> (r: Option<&FulfillmentBatch>)
        ensures
            r matches Some(b) ==> self@.batch == Some(*b),
            r is None ==> self@.batch is None,
    {
        self.batch.as_ref()
    }
}

} // verus!
