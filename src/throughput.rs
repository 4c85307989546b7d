use vstd::prelude::*;

use crate::request_id::RequestId;

verus! {

/// A worst-case sample with fewer cycles than this is too small to trust.
pub const LOW_CONFIDENCE_CYCLES: u64 = 1_000_000;

/// How much work a proving job did and how long it took.
#[derive(Clone, Copy, Debug, PartialEq, Eq, Structural)]
pub struct Measurement {
    pub cycles: u64,
    pub elapsed_micros: u64,
}

/// Picks the figures a sample is computed from: the telemetry store's exact
/// numbers for the job when they could be read, else the cycle count the
/// backend reported over the wall-clock time observed by the harness.
pub fn select_measurement(
    telemetry: Option<Measurement>,
    reported_cycles: u64,
    wall_micros: u64,
) -> (m: Measurement)
    ensures
        telemetry is Some ==> m == telemetry->0,
        telemetry is None ==> m.cycles == reported_cycles && m.elapsed_micros == wall_micros,
{
    match telemetry {
        Some(t) => t,
        None => Measurement { cycles: reported_cycles, elapsed_micros: wall_micros },
    }
}

/// One benchmarked request. Throughput is `cycles / elapsed_micros` thousand
/// cycles per second (cycles per millisecond).
#[derive(Clone, Copy, Debug, PartialEq, Eq, Structural)]
pub struct BenchmarkSample {
    pub request_id: RequestId,
    pub cycles: u64,
    pub elapsed_micros: u64,
}

/// True when `a` ran at a strictly lower rate than `b`.
pub open spec fn slower(a: BenchmarkSample, b: BenchmarkSample) -> bool {
    (a.cycles as int) * (b.elapsed_micros as int) < (b.cycles as int) * (a.elapsed_micros as int)
}

proof fn lemma_product_fits(a: u64, b: u64)
    ensures
        0 <= (a as int) * (b as int) <= u64::MAX as int * u64::MAX as int,
{
    assert(0 <= (a as int) * (b as int) <= u64::MAX as int * u64::MAX as int) by (nonlinear_arith)
        requires
            0 <= a <= u64::MAX,
            0 <= b <= u64::MAX,
    ;
}

/// When `a` runs at least as fast as `b` and `b` strictly faster than `c`,
/// then `a` is strictly faster than `c`.
proof fn lemma_slower_chain(a: BenchmarkSample, b: BenchmarkSample, c: BenchmarkSample)
    requires
        a.valid(),
        b.valid(),
        c.valid(),
        !slower(a, b),
        slower(c, b),
    ensures
        slower(c, a),
{
    let (ac, am) = (a.cycles as int, a.elapsed_micros as int);
    let (bc, bm) = (b.cycles as int, b.elapsed_micros as int);
    let (cc, cm) = (c.cycles as int, c.elapsed_micros as int);
    assert(ac * bm * cm >= bc * am * cm) by (nonlinear_arith)
        requires
            ac * bm >= bc * am,
            cm > 0,
    ;
    assert(cc * bm * am < bc * cm * am) by (nonlinear_arith)
        requires
            cc * bm < bc * cm,
            am > 0,
    ;
    assert(cc * am < ac * cm) by (nonlinear_arith)
        requires
            ac * bm * cm >= bc * am * cm,
            cc * bm * am < bc * cm * am,
            bm > 0,
    ;
}

impl BenchmarkSample {
    /// A throughput figure exists only for positive cycles and elapsed time.
    pub open spec fn valid(self) -> bool {
        self.cycles > 0 && self.elapsed_micros > 0
    }

    /// Builds the sample for a request, or `None` when the measurement has
    /// no cycles or no elapsed time.
    pub fn new(request_id: RequestId, m: Measurement) -> (r: Option<BenchmarkSample>)
        ensures
            r is Some <==> (m.cycles > 0 && m.elapsed_micros > 0),
            r is Some ==> r->0.valid() && r->0.request_id == request_id && r->0.cycles
                == m.cycles && r->0.elapsed_micros == m.elapsed_micros,
    {
        if m.cycles > 0 && m.elapsed_micros > 0 {
            Some(BenchmarkSample { request_id, cycles: m.cycles, elapsed_micros: m.elapsed_micros })
        } else {
            None
        }
    }

    /// Whether this sample ran at a strictly lower rate than `other`.
    pub fn is_slower_than(&self, other: &BenchmarkSample) -> (r: bool)
        ensures
            r == slower(*self, *other),
    {
        proof {
            lemma_product_fits(self.cycles, other.elapsed_micros);
            lemma_product_fits(other.cycles, self.elapsed_micros);
        }
        (self.cycles as u128) * (other.elapsed_micros as u128) < (other.cycles as u128) * (
        self.elapsed_micros as u128)
    }

    /// Throughput in kHz, rounded down.
    pub fn khz(&self) -> (r: u128)
        requires
            self.valid(),
        ensures
            r as int == (self.cycles as int * 1000) / (self.elapsed_micros as int),
    {
        (self.cycles as u128 * 1000) / (self.elapsed_micros as u128)
    }

    /// Throughput in hundredths of a kHz, rounded down.
    pub fn khz_hundredths(&self) -> (r: u128)
        requires
            self.valid(),
        ensures
            r as int == (self.cycles as int * 100_000) / (self.elapsed_micros as int),
    {
        (self.cycles as u128 * 100_000) / (self.elapsed_micros as u128)
    }

    /// Throughput in kHz rounded to the nearest integer, halves up.
    pub fn khz_rounded(&self) -> (r: u128)
        requires
            self.valid(),
        ensures
            r as int == (self.cycles as int * 2000 + self.elapsed_micros as int) / (2
                * self.elapsed_micros as int),
    {
        (self.cycles as u128 * 2000 + self.elapsed_micros as u128) / (2
            * self.elapsed_micros as u128)
    }
}

/// The worst case after one more sample: the sample replaces the record only
/// when it is strictly slower (or when there is no record yet).
pub open spec fn after_sample(worst: Option<BenchmarkSample>, s: BenchmarkSample) -> Option<
    BenchmarkSample,
> {
    match worst {
        None => Some(s),
        Some(w) => if slower(s, w) {
            Some(s)
        } else {
            Some(w)
        },
    }
}

/// The worst case over a sequence of samples, taken in order.
pub open spec fn worst_of(samples: Seq<BenchmarkSample>) -> Option<BenchmarkSample>
    decreases samples.len(),
{
    if samples.len() == 0 {
        None
    } else {
        after_sample(worst_of(samples.drop_last()), samples.last())
    }
}

/// Over any non-empty sequence of valid samples, the worst case is one of the
/// samples, and no sample ran at a lower rate than it.
pub proof fn lemma_worst_is_minimum(samples: Seq<BenchmarkSample>)
    requires
        samples.len() > 0,
        forall|i: int| 0 <= i < samples.len() ==> #[trigger] samples[i].valid(),
    ensures
        worst_of(samples) is Some,
        samples.contains(worst_of(samples)->0),
        forall|i: int| 0 <= i < samples.len() ==> !slower(#[trigger] samples[i], worst_of(samples)->0),
    decreases samples.len(),
{
    let prefix = samples.drop_last();
    let s = samples.last();
    assert(s == samples[samples.len() - 1]);
    if prefix.len() == 0 {
        assert(worst_of(prefix) is None);
        assert(samples[0] == s);
        assert(!slower(s, s));
    } else {
        assert forall|i: int| 0 <= i < prefix.len() implies #[trigger] prefix[i].valid() by {
            assert(prefix[i] == samples[i]);
        }
        lemma_worst_is_minimum(prefix);
        let w = worst_of(prefix)->0;
        let k = choose|k: int| 0 <= k < prefix.len() && prefix[k] == w;
        assert(samples[k] == w);
        assert(w.valid());
        if slower(s, w) {
            assert forall|i: int| 0 <= i < samples.len() implies !slower(
                #[trigger] samples[i],
                s,
            ) by {
                if i < prefix.len() {
                    assert(prefix[i] == samples[i]);
                    lemma_slower_chain(samples[i], w, s);
                    assert(!slower(samples[i], s)) by (nonlinear_arith)
                        requires
                            slower(s, samples[i]),
                    ;
                }
            }
        } else {
            assert forall|i: int| 0 <= i < samples.len() implies !slower(
                #[trigger] samples[i],
                w,
            ) by {
                if i < prefix.len() {
                    assert(prefix[i] == samples[i]);
                }
            }
        }
    }
}

/// The running worst case of a benchmark, seeded with no record (an
/// infinitely fast rate).
#[derive(Debug)]
pub struct WorstCase {
    worst: Option<BenchmarkSample>,
}

impl View for WorstCase {
    type V = Option<BenchmarkSample>;

    closed spec fn view(&self) -> Option<BenchmarkSample> {
        self.worst
    }
}

impl WorstCase {
    pub fn new() -> (r: WorstCase)
        ensures
            r@ is None,
    {
        WorstCase { worst: None }
    }

    /// Takes one more sample into account.
    pub fn observe(&mut self, s: BenchmarkSample)
        ensures
            final(self)@ == after_sample(old(self)@, s),
    {
        match self.worst {
            None => {
                self.worst = Some(s);
            },
            Some(w) => {
                if s.is_slower_than(&w) {
                    self.worst = Some(s);
                }
            },
        }
    }

    /// The slowest sample seen so far, if any.
    pub fn worst(&self) -> (r: Option<BenchmarkSample>)
        ensures
            r == self@,
    {
        self.worst
    }

    /// Whether the worst case rests on a job too small to give a trustworthy
    /// rate.
    pub fn low_confidence(&self) -> (r: bool)
        ensures
            r == (self@ is Some && self@->0.cycles < LOW_CONFIDENCE_CYCLES),
    {
        match self.worst {
            Some(w) => w.cycles < LOW_CONFIDENCE_CYCLES,
            None => false,
        }
    }
}

} // verus!
