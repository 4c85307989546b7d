use vstd::prelude::*;

use crate::request_id::RequestId;

verus! {

/// Why one request of a batch could not be used.
#[derive(Clone, Copy, Debug, PartialEq, Eq, Structural)]
pub enum OrderFailure {
    /// No order with that id could be found on chain or in the order stream.
    NotFound,
    /// An order was found but could not be decoded, or was not the one asked for.
    Malformed,
    /// A call to the chain failed while the order was fetched or classified.
    Rpc,
}

/// A failure that aborts a fulfillment batch, with the stage it came from.
#[derive(Clone, Copy, Debug, PartialEq, Eq, Structural)]
pub enum FulfillError {
    /// A parallel array of hints does not have one entry per request id.
    /// Raised before any network call.
    LengthMismatch { field: HintField, request_ids: usize, found: usize },
    /// The request at `index` could not be fetched, decoded or classified.
    Order { index: usize, failure: OrderFailure },
    /// The signature of the request at `index` does not verify.
    InvalidSignature { index: usize },
    /// The aggregation prover failed, or its fills do not line up with the batch.
    Aggregation,
    /// Committing the aggregation root on chain failed.
    RootSubmission,
    /// The price-and-fulfill transaction failed.
    Fulfillment,
}

/// The optional arrays that run parallel to the request ids.
#[derive(Clone, Copy, Debug, PartialEq, Eq, Structural)]
pub enum HintField {
    RequestDigests,
    TxHashes,
}

/// Where to look for one request: its id and the hints given for it.
#[derive(Clone, Copy, Debug)]
pub struct OrderLookup {
    pub request_id: RequestId,
    pub tx_hash: Option<[u8; 32]>,
    pub request_digest: Option<[u8; 32]>,
}

/// The hint for position `i`, when hints were given.
pub open spec fn hint_at(hints: Option<Vec<[u8; 32]>>, i: int) -> Option<[u8; 32]> {
    match hints {
        Some(h) => Some(h@[i]),
        None => None,
    }
}

/// True when hints were given but not one per request id.
pub open spec fn hints_mismatch(hints: Option<Vec<[u8; 32]>>, n: int) -> bool {
    hints is Some && hints->0@.len() != n
}

fn hint_len_ok(hints: &Option<Vec<[u8; 32]>>, n: usize) -> (r: bool)
    ensures
        r == !hints_mismatch(*hints, n as int),
{
    match hints {
        Some(h) => h.len() == n,
        None => true,
    }
}

fn hint_get(hints: &Option<Vec<[u8; 32]>>, i: usize) -> (r: Option<[u8; 32]>)
    requires
        hints is Some ==> i < hints->0@.len(),
    ensures
        r == hint_at(*hints, i as int),
{
    match hints {
        Some(h) => Some(h[i]),
        None => None,
    }
}

/// Pairs each request id with its hints. The hint arrays, when present, must
/// have one entry per id; otherwise the batch is refused before anything is
/// fetched (request digests are checked first).
pub fn plan_lookups(
    request_ids: &Vec<RequestId>,
    request_digests: &Option<Vec<[u8; 32]>>,
    tx_hashes: &Option<Vec<[u8; 32]>>,
) -> (r: Result<Vec<OrderLookup>, FulfillError>)
    ensures
        r is Err <==> (hints_mismatch(*request_digests, request_ids@.len() as int)
            || hints_mismatch(*tx_hashes, request_ids@.len() as int)),
        hints_mismatch(*request_digests, request_ids@.len() as int) ==> r == Err::<
            Vec<OrderLookup>,
            FulfillError,
        >(
            FulfillError::LengthMismatch {
                field: HintField::RequestDigests,
                request_ids: request_ids.len(),
                found: request_digests->0.len(),
            },
        ),
        !hints_mismatch(*request_digests, request_ids@.len() as int) && hints_mismatch(
            *tx_hashes,
            request_ids@.len() as int,
        ) ==> r == Err::<Vec<OrderLookup>, FulfillError>(
            FulfillError::LengthMismatch {
                field: HintField::TxHashes,
                request_ids: request_ids.len(),
                found: tx_hashes->0.len(),
            },
        ),
        r matches Ok(v) ==> {
            &&& v@.len() == request_ids@.len()
            &&& forall|i: int|
                0 <= i < v@.len() ==> {
                    &&& (#[trigger] v@[i]).request_id == request_ids@[i]
                    &&& v@[i].tx_hash == hint_at(*tx_hashes, i)
                    &&& v@[i].request_digest == hint_at(*request_digests, i)
                }
        },
{
    let n = request_ids.len();
    if !hint_len_ok(request_digests, n) {
        return Err(
            FulfillError::LengthMismatch {
                field: HintField::RequestDigests,
                request_ids: n,
                found: request_digests.as_ref().unwrap().len(),
            },
        );
    }
    if !hint_len_ok(tx_hashes, n) {
        return Err(
            FulfillError::LengthMismatch {
                field: HintField::TxHashes,
                request_ids: n,
                found: tx_hashes.as_ref().unwrap().len(),
            },
        );
    }
    let mut lookups: Vec<OrderLookup> = Vec::new();
    let mut i: usize = 0;
    while i < n
        invariant
            n == request_ids@.len(),
            i <= n,
            !hints_mismatch(*request_digests, n as int),
            !hints_mismatch(*tx_hashes, n as int),
            lookups@.len() == i,
            forall|j: int|
                0 <= j < i ==> {
                    &&& (#[trigger] lookups@[j]).request_id == request_ids@[j]
                    &&& lookups@[j].tx_hash == hint_at(*tx_hashes, j)
                    &&& lookups@[j].request_digest == hint_at(*request_digests, j)
                },
        decreases n - i,
    {
        let lookup = OrderLookup {
            request_id: request_ids[i],
            tx_hash: hint_get(tx_hashes, i),
            request_digest: hint_get(request_digests, i),
        };
        lookups.push(lookup);
        i = i + 1;
    }
    Ok(lookups)
}

/// An order as the order source returned it.
#[derive(Debug)]
pub struct FetchedOrder {
    pub request_id: RequestId,
    pub signature: Vec<u8>,
}

/// An order whose signature has been checked. Only [`check_signature`] makes
/// one, so holding one means the check passed.
#[derive(Debug)]
pub struct VerifiedOrder {
    request_id: RequestId,
    signature: Vec<u8>,
}

impl View for VerifiedOrder {
    type V = (RequestId, Seq<u8>);

    closed spec fn view(&self) -> (RequestId, Seq<u8>) {
        (self.request_id, self.signature@)
    }
}

impl VerifiedOrder {
    pub fn request_id(&self) -> (r: RequestId)
        ensures
            r == self@.0,
    {
        self.request_id
    }

    pub fn signature(&self) -> (r: &Vec<u8>)
        ensures
            r@ == self@.1,
    {
        &self.signature
    }
}

/// Admits the order at position `index` of a batch when its signature
/// verified against the market and chain; a bad signature is fatal for the
/// whole batch.
pub fn check_signature(index: usize, order: FetchedOrder, signature_valid: bool) -> (r: Result<
    VerifiedOrder,
    FulfillError,
>)
    ensures
        r is Ok <==> signature_valid,
        r matches Ok(v) ==> v@ == (order.request_id, order.signature@),
        !signature_valid ==> r == Err::<VerifiedOrder, FulfillError>(
            FulfillError::InvalidSignature { index },
        ),
{
    if signature_valid {
        Ok(VerifiedOrder { request_id: order.request_id, signature: order.signature })
    } else {
        Err(FulfillError::InvalidSignature { index })
    }
}

/// A verified order together with whether a prover already holds a stake
/// lock on it.
#[derive(Debug)]
pub struct ClassifiedOrder {
    pub order: VerifiedOrder,
    pub locked: bool,
}

} // verus!
