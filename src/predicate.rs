use vstd::prelude::*;

verus! {

/// How a request's predicate constrains the journal of its proof.
#[derive(Clone, Copy, Debug, PartialEq, Eq, Structural)]
pub enum PredicateKind {
    /// The journal's SHA-256 digest equals the predicate data.
    DigestMatch,
    /// The journal starts with the predicate data.
    PrefixMatch,
}

/// A request's requirement on the journal, checked in preflight before a
/// request is submitted or fulfilled.
#[derive(Clone, Debug)]
pub struct Predicate {
    pub kind: PredicateKind,
    pub data: Vec<u8>,
}

/// Whether a journal with the given digest meets the predicate.
pub open spec fn predicate_holds(
    kind: PredicateKind,
    data: Seq<u8>,
    journal: Seq<u8>,
    journal_digest: Seq<u8>,
) -> bool {
    match kind {
        PredicateKind::DigestMatch => journal_digest == data,
        PredicateKind::PrefixMatch => data.len() <= journal.len() && journal.subrange(
            0,
            data.len() as int,
        ) == data,
    }
}

fn bytes_equal(a: &[u8], b: &[u8], n: usize) -> (r: bool)
    requires
        n <= a@.len(),
        n <= b@.len(),
    ensures
        r == (a@.subrange(0, n as int) == b@.subrange(0, n as int)),
{
    let mut i: usize = 0;
    while i < n
        invariant
            n <= a@.len(),
            n <= b@.len(),
            i <= n,
            forall|j: int| 0 <= j < i ==> a@[j] == b@[j],
        decreases n - i,
    {
        if a[i] != b[i] {
            assert(a@.subrange(0, n as int)[i as int] != b@.subrange(0, n as int)[i as int]);
            return false;
        }
        i = i + 1;
    }
    assert(a@.subrange(0, n as int) =~= b@.subrange(0, n as int));
    true
}

impl Predicate {
    /// Evaluates the predicate on a journal; `journal_digest` is the
    /// journal's SHA-256 digest.
    pub fn eval(&self, journal: &[u8], journal_digest: &[u8]) -> (r: bool)
        ensures
            r == predicate_holds(self.kind, self.data@, journal@, journal_digest@),
    {
        let data = self.data.as_slice();
        match self.kind {
            PredicateKind::DigestMatch => {
                if journal_digest.len() != data.len() {
                    return false;
                }
                let same = bytes_equal(journal_digest, data, data.len());
                assert(journal_digest@.subrange(0, data@.len() as int) =~= journal_digest@);
                assert(data@.subrange(0, data@.len() as int) =~= data@);
                same
            },
            PredicateKind::PrefixMatch => {
                if data.len() > journal.len() {
                    return false;
                }
                let same = bytes_equal(journal, data, data.len());
                assert(data@.subrange(0, data@.len() as int) =~= data@);
                same
            },
        }
    }
}

} // verus!
