use vstd::prelude::*;

use crate::request_id::RequestId;
use crate::throughput::{
    after_sample, worst_of, BenchmarkSample, Measurement, WorstCase, LOW_CONFIDENCE_CYCLES,
};

verus! {

/// How long to wait between two status queries of a running job.
pub const POLL_INTERVAL_MILLIS: u64 = 100;

/// How a request's input is stored.
#[derive(Clone, Copy, Debug, PartialEq, Eq, Structural)]
pub enum InputKind {
    Inline,
    Url,
    Unsupported,
}

/// Where the encoded guest environment of a request is to be read from.
#[derive(Debug)]
pub enum InputSource {
    /// The bytes are the encoded environment.
    Inline(Vec<u8>),
    /// The bytes are a URL (UTF-8) to fetch the encoded environment from.
    Url(Vec<u8>),
}

/// Resolves a request's input descriptor; `None` for a kind that cannot be
/// read.
pub fn input_source(kind: InputKind, data: Vec<u8>) -> (r: Option<InputSource>)
    ensures
        kind == InputKind::Inline ==> (r matches Some(InputSource::Inline(d)) && d@ == data@),
        kind == InputKind::Url ==> (r matches Some(InputSource::Url(u)) && u@ == data@),
        kind == InputKind::Unsupported ==> r is None,
{
    match kind {
        InputKind::Inline => Some(InputSource::Inline(data)),
        InputKind::Url => Some(InputSource::Url(data)),
        InputKind::Unsupported => None,
    }
}

/// What the proving backend said about a job.
#[derive(Clone, Copy, Debug, PartialEq, Eq, Structural)]
pub enum JobStatus {
    Running,
    /// The job finished; `total_cycles` is `None` when the backend sent no
    /// statistics.
    Succeeded { total_cycles: Option<u64> },
    Failed,
}

/// What to do after a status query.
#[derive(Clone, Copy, Debug, PartialEq, Eq, Structural)]
pub enum PollStep {
    /// Query again after this many milliseconds.
    Wait { millis: u64 },
    /// The job is done and the backend counted this many cycles.
    Completed { reported_cycles: u64 },
}

/// Why a benchmark run stopped. Any of these ends the whole run.
#[derive(Clone, Copy, Debug, PartialEq, Eq, Structural)]
pub enum BenchError {
    /// No request ids were given.
    NoRequests,
    /// The proving job for the request failed on the backend.
    JobFailed { request_id: RequestId },
    /// The backend reported success without statistics.
    MissingStats { request_id: RequestId },
    /// The job was still running after the allowed number of waits.
    PollTimeout { request_id: RequestId },
    /// The measurement had no cycles or no elapsed time, so no rate exists.
    NoThroughput { request_id: RequestId },
}

/// What a benchmark run knows.
pub struct BenchView {
    pub request_ids: Seq<RequestId>,
    pub next: int,
    pub polls: int,
    pub max_polls: int,
    pub samples: Seq<BenchmarkSample>,
    pub worst: Option<BenchmarkSample>,
}

/// The worst case of a run, as reported at its end.
#[derive(Clone, Copy, Debug, PartialEq, Eq, Structural)]
pub struct WorstCaseReport {
    pub sample: BenchmarkSample,
    /// Throughput in hundredths of a kHz, rounded down.
    pub khz_hundredths: u128,
    /// Throughput in kHz rounded to the nearest integer: the value to
    /// configure as the prover's peak rate.
    pub recommended_khz: u128,
    /// The sample had too few cycles for its rate to be trusted.
    pub low_confidence: bool,
}

/// Benchmarks requests one after the other (never concurrently, which would
/// distort the timings) and keeps the slowest.
pub struct BenchmarkRun {
    request_ids: Vec<RequestId>,
    next: usize,
    polls: u64,
    max_polls: u64,
    worst: WorstCase,
    samples: Ghost<Seq<BenchmarkSample>>,
}

impl View for BenchmarkRun {
    type V = BenchView;

    closed spec fn view(&self) -> BenchView {
        BenchView {
            request_ids: self.request_ids@,
            next: self.next as int,
            polls: self.polls as int,
            max_polls: self.max_polls as int,
            samples: self.samples@,
            worst: self.worst@,
        }
    }
}

impl BenchmarkRun {
    /// One valid sample per benchmarked request, in order, and the worst case
    /// taken over them.
    pub open spec fn wf(&self) -> bool {
        let v = self@;
        &&& v.request_ids.len() > 0
        &&& 0 <= v.next <= v.request_ids.len()
        &&& 0 <= v.polls <= v.max_polls
        &&& v.samples.len() == v.next
        &&& forall|i: int|
            0 <= i < v.samples.len() ==> (#[trigger] v.samples[i]).valid()
                && v.samples[i].request_id == v.request_ids[i]
        &&& v.worst == worst_of(v.samples)
    }

    /// Starts a run over `request_ids`, allowing `max_polls` waits per job.
    /// An empty list is refused.
    pub fn new(request_ids: Vec<RequestId>, max_polls: u64) -> (r: Result<
        BenchmarkRun,
        BenchError,
    >)
        ensures
            request_ids@.len() == 0 <==> r == Err::<BenchmarkRun, BenchError>(
                BenchError::NoRequests,
            ),
            request_ids@.len() > 0 <==> r is Ok,
            r matches Ok(run) ==> {
                &&& run.wf()
                &&& run@.request_ids == request_ids@
                &&& run@.next == 0
                &&& run@.polls == 0
                &&& run@.max_polls == max_polls
            },
    {
        if request_ids.len() == 0 {
            return Err(BenchError::NoRequests);
        }
        Ok(
            BenchmarkRun {
                request_ids,
                next: 0,
                polls: 0,
                max_polls,
                worst: WorstCase::new(),
                samples: Ghost(Seq::empty()),
            },
        )
    }

    /// The request to benchmark now, or `None` once all are done.
    pub fn current(&self) -> (r: Option<RequestId>)
        requires
            self.wf(),
        ensures
            self@.next < self@.request_ids.len() ==> r == Some(self@.request_ids[self@.next]),
            self@.next == self@.request_ids.len() ==> r is None,
    {
        if self.next < self.request_ids.len() {
            Some(self.request_ids[self.next])
        } else {
            None
        }
    }

    /// Decides what follows a status query of the current request's job: wait
    /// and query again while it runs (up to the allowed number of waits),
    /// take the backend's cycle count when it succeeded, or stop the run.
    pub fn on_status(&mut self, status: JobStatus) -> (r: Result<PollStep, BenchError>)
        requires
            old(self).wf(),
            old(self)@.next < old(self)@.request_ids.len(),
        ensures
            final(self).wf(),
            final(self)@.request_ids == old(self)@.request_ids,
            final(self)@.next == old(self)@.next,
            final(self)@.max_polls == old(self)@.max_polls,
            final(self)@.samples == old(self)@.samples,
            ({
                let id = old(self)@.request_ids[old(self)@.next];
                match status {
                    JobStatus::Running => if old(self)@.polls < old(self)@.max_polls {
                        r == Ok::<PollStep, BenchError>(PollStep::Wait { millis: POLL_INTERVAL_MILLIS })
                            && final(self)@.polls == old(self)@.polls + 1
                    } else {
                        r == Err::<PollStep, BenchError>(BenchError::PollTimeout { request_id: id })
                    },
                    JobStatus::Succeeded { total_cycles: Some(c) } => r == Ok::<PollStep, BenchError>(
                        PollStep::Completed { reported_cycles: c },
                    ),
                    JobStatus::Succeeded { total_cycles: None } => r == Err::<PollStep, BenchError>(
                        BenchError::MissingStats { request_id: id },
                    ),
                    JobStatus::Failed => r == Err::<PollStep, BenchError>(
                        BenchError::JobFailed { request_id: id },
                    ),
                }
            }),
    {
        let id = self.request_ids[self.next];
        match status {
            JobStatus::Running => {
                if self.polls < self.max_polls {
                    self.polls = self.polls + 1;
                    Ok(PollStep::Wait { millis: POLL_INTERVAL_MILLIS })
                } else {
                    Err(BenchError::PollTimeout { request_id: id })
                }
            },
            JobStatus::Succeeded { total_cycles: Some(c) } => Ok(
                PollStep::Completed { reported_cycles: c },
            ),
            JobStatus::Succeeded { total_cycles: None } => Err(
                BenchError::MissingStats { request_id: id },
            ),
            JobStatus::Failed => Err(BenchError::JobFailed { request_id: id }),
        }
    }

    /// Records the measurement of the current request's finished job and
    /// moves on to the next request. A measurement without cycles or without
    /// elapsed time stops the run.
    pub fn record(&mut self, m: Measurement) -> (r: Result<BenchmarkSample, BenchError>)
        requires
            old(self).wf(),
            old(self)@.next < old(self)@.request_ids.len(),
        ensures
            final(self).wf(),
            final(self)@.request_ids == old(self)@.request_ids,
            final(self)@.max_polls == old(self)@.max_polls,
            !(m.cycles > 0 && m.elapsed_micros > 0) ==> r == Err::<BenchmarkSample, BenchError>(
                BenchError::NoThroughput { request_id: old(self)@.request_ids[old(self)@.next] },
            ),
            (m.cycles > 0 && m.elapsed_micros > 0) ==> {
                &&& r matches Ok(s)
                &&& s.request_id == old(self)@.request_ids[old(self)@.next]
                &&& s.cycles == m.cycles
                &&& s.elapsed_micros == m.elapsed_micros
                &&& final(self)@.samples == old(self)@.samples.push(s)
                &&& final(self)@.worst == after_sample(old(self)@.worst, s)
                &&& final(self)@.next == old(self)@.next + 1
                &&& final(self)@.polls == 0
            },
    {
        let id = self.request_ids[self.next];
        let n = self.request_ids.len();
        match BenchmarkSample::new(id, m) {
            None => Err(BenchError::NoThroughput { request_id: id }),
            Some(s) => {
                self.worst.observe(s);
                let ghost old_samples = self.samples@;
                self.samples = Ghost(self.samples@.push(s));
                assert(self.samples@.drop_last() =~= old_samples);
                assert(self.next < n);
                self.next = self.next + 1;
                self.polls = 0;
                Ok(s)
            },
        }
    }

    /// Whether every request has been benchmarked.
    pub fn is_finished(&self) -> (r: bool)
        requires
            self.wf(),
        ensures
            r == (self@.next == self@.request_ids.len()),
    {
        self.next == self.request_ids.len()
    }

    /// The slowest sample so far with its derived figures, or `None` before
    /// the first sample.
    pub fn report(&self) -> (r: Option<WorstCaseReport>)
        requires
            self.wf(),
        ensures
            self@.worst is None <==> r is None,
            r matches Some(rep) ==> {
                let s = rep.sample;
                &&& self@.worst == Some(s)
                &&& rep.khz_hundredths as int == (s.cycles as int * 100_000) / (
                s.elapsed_micros as int)
                &&& rep.recommended_khz as int == (s.cycles as int * 2000 + s.elapsed_micros as int)
                    / (2 * s.elapsed_micros as int)
                &&& rep.low_confidence == (s.cycles < LOW_CONFIDENCE_CYCLES)
            },
    {
        match self.worst.worst() {
            None => None,
            Some(s) => {
                proof {
                    // the worst case is one of the recorded samples, all valid
                    crate::throughput::lemma_worst_is_minimum(self@.samples);
                }
                Some(
                    WorstCaseReport {
                        sample: s,
                        khz_hundredths: s.khz_hundredths(),
                        recommended_khz: s.khz_rounded(),
                        low_confidence: self.worst.low_confidence(),
                    },
                )
            },
        }
    }
}

} // verus!
