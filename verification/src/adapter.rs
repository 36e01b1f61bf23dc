use vstd::prelude::*;

use crate::error::Error;
use crate::progress::lemma_rate_bound;
use crate::progress::sum_u64;
use crate::progress::ProgressSample;
use crate::progress::ProgressTracker;
use crate::progress::EMIT_INTERVAL_MS;

verus! {

/// The sum of the lengths of a sequence of chunks.
pub open spec fn total_len(chunks: Seq<Vec<u8>>) -> int
    decreases chunks.len(),
{
    if chunks.len() == 0 {
        0
    } else {
        total_len(chunks.drop_last()) + chunks.last()@.len()
    }
}

pub proof fn lemma_total_len_nonneg(chunks: Seq<Vec<u8>>)
    ensures
        total_len(chunks) >= 0,
    decreases chunks.len(),
{
    if chunks.len() > 0 {
        lemma_total_len_nonneg(chunks.drop_last());
    }
}

proof fn lemma_total_len_take_succ(chunks: Seq<Vec<u8>>, i: int)
    requires
        0 <= i < chunks.len(),
    ensures
        total_len(chunks.take(i + 1)) == total_len(chunks.take(i)) + chunks[i]@.len(),
{
    assert(chunks.take(i + 1).drop_last() =~= chunks.take(i));
    assert(chunks.take(i + 1).last() == chunks[i]);
}

proof fn lemma_total_len_take_le(chunks: Seq<Vec<u8>>, k: int)
    requires
        0 <= k <= chunks.len(),
    ensures
        total_len(chunks.take(k)) <= total_len(chunks),
    decreases chunks.len() - k,
{
    if k == chunks.len() {
        assert(chunks.take(k) =~= chunks);
    } else {
        lemma_total_len_take_succ(chunks, k);
        lemma_total_len_take_le(chunks, k + 1);
    }
}

/// The sum of the `progress` values of a sequence of samples.
pub open spec fn sample_total(s: Seq<ProgressSample>) -> int
    decreases s.len(),
{
    if s.len() == 0 {
        0
    } else {
        sample_total(s.drop_last()) + s.last().progress
    }
}

/// Arrival times never go backwards.
pub open spec fn monotone_ms(ts: Seq<u64>) -> bool {
    forall|i: int, j: int| #![trigger ts[i], ts[j]] 0 <= i <= j < ts.len() ==> ts[i] <= ts[j]
}

/// One streamed event of a transfer source.
pub enum StreamEvent {
    /// A chunk arrived, `at_ms` milliseconds after the transfer started.
    Chunk { data: Vec<u8>, at_ms: u64 },
    /// The source failed mid-stream; the transfer is over.
    Failed { error: Error },
    /// The source is exhausted; the transfer succeeded.
    Done,
}

/// What the pipeline must do in response to one event.
pub enum StepAction {
    /// Hand `chunk` downstream unchanged, then emit `sample`, if any.
    Deliver { chunk: Vec<u8>, sample: Option<ProgressSample> },
    /// Emit the final residual `sample`, if any, and report success.
    Complete { sample: Option<ProgressSample> },
    /// Emit nothing further and surface `error`.
    Abort { error: Error },
}

/// The decision a transfer pipeline makes for one source event.
///
/// A chunk is always handed on unchanged (the adapter is a decorator, not a
/// transform), with a rate-limited sample when one is due; exhaustion emits
/// the final residual sample, if any; a source failure surfaces the error at
/// once and emits nothing further, discarding the unreported residual.
pub fn transfer_step(t: &mut ProgressTracker, event: StreamEvent) -> (a: StepAction)
    requires
        old(t).wf(),
        event matches StreamEvent::Chunk { data, at_ms } ==> old(t).last_emit_ms <= at_ms
            && old(t).fed + data@.len() <= u64::MAX,
    ensures
        final(t).wf(),
        final(t).id == old(t).id,
        final(t).total == old(t).total,
        match event {
            StreamEvent::Chunk { data, at_ms } => {
                &&& final(t).fed == old(t).fed + data@.len()
                &&& a matches StepAction::Deliver { chunk, sample } && chunk == data && (at_ms
                    - old(t).last_emit_ms >= EMIT_INTERVAL_MS ==> {
                    &&& sample == Some(
                        (ProgressSample {
                            id: old(t).id,
                            progress: (old(t).accum + data@.len()) as u64,
                            total: old(t).total,
                        }),
                    )
                    &&& final(t).accum == 0
                    &&& final(t).last_emit_ms == at_ms
                    &&& final(t).emitted@ == old(t).emitted@.push(
                        (old(t).accum + data@.len()) as u64,
                    )
                    &&& final(t).timed@ == old(t).timed@ + 1
                }) && (at_ms - old(t).last_emit_ms < EMIT_INTERVAL_MS ==> {
                    &&& sample == None::<ProgressSample>
                    &&& final(t).accum == old(t).accum + data@.len()
                    &&& final(t).last_emit_ms == old(t).last_emit_ms
                    &&& final(t).emitted@ == old(t).emitted@
                    &&& final(t).timed@ == old(t).timed@
                })
            },
            StreamEvent::Failed { error } => {
                &&& final(t).accum == old(t).accum
                &&& final(t).fed == old(t).fed
                &&& final(t).last_emit_ms == old(t).last_emit_ms
                &&& final(t).emitted@ == old(t).emitted@
                &&& final(t).timed@ == old(t).timed@
                &&& a matches StepAction::Abort { error: e } && e == error
            },
            StreamEvent::Done => {
                &&& final(t).fed == old(t).fed
                &&& final(t).accum == 0
                &&& final(t).last_emit_ms == old(t).last_emit_ms
                &&& final(t).timed@ == old(t).timed@
                &&& sum_u64(final(t).emitted@) == final(t).fed
                &&& a matches StepAction::Complete { sample } && (old(t).accum != 0 ==> sample
                    == Some(
                    (ProgressSample {
                        id: old(t).id,
                        progress: old(t).accum,
                        total: old(t).total,
                    }),
                ) && final(t).emitted@ == old(t).emitted@.push(old(t).accum)) && (old(t).accum == 0
                    ==> sample == None::<ProgressSample> && final(t).emitted@ == old(t).emitted@)
            },
        },
{
    match event {
        StreamEvent::Chunk { data, at_ms } => {
            let len: usize = data.len();
            let sample = t.on_chunk(len as u64, at_ms);
            StepAction::Deliver { chunk: data, sample }
        },
        StreamEvent::Failed { error } => StepAction::Abort { error },
        StreamEvent::Done => {
            let sample = t.finish();
            StepAction::Complete { sample }
        },
    }
}

/// Everything one finished transfer handed downstream and reported: the
/// chunks in delivery order, and the emitted samples in emission order.
pub struct TransferLog {
    pub delivered: Vec<Vec<u8>>,
    pub samples: Vec<ProgressSample>,
}

/// Run a whole successful transfer through the adapter: every chunk is
/// delivered unchanged and in order, the emitted samples account for every
/// byte exactly once, an empty source reports nothing, and the number of
/// samples is bounded by the elapsed time over the emission interval, plus
/// the one final residual flush.
pub fn relay_chunks(id: u32, total: u64, chunks: Vec<Vec<u8>>, arrivals: &Vec<u64>) -> (log:
    TransferLog)
    requires
        arrivals@.len() == chunks@.len(),
        monotone_ms(arrivals@),
        total_len(chunks@) <= u64::MAX,
    ensures
        log.delivered@ == chunks@,
        sample_total(log.samples@) == total_len(chunks@),
        forall|i: int|
            0 <= i < log.samples@.len() ==> (#[trigger] log.samples@[i]).id == id
                && log.samples@[i].total == total,
        chunks@.len() == 0 ==> log.samples@.len() == 0,
        chunks@.len() > 0 ==> log.samples@.len() <= arrivals@.last() as int / (
        EMIT_INTERVAL_MS as int) + 1,
{
    let mut t = ProgressTracker::new(id, total);
    let mut samples: Vec<ProgressSample> = Vec::new();
    let n: usize = chunks.len();
    let mut i: usize = 0;
    while i < n
        invariant
            n == chunks@.len(),
            arrivals@.len() == n,
            monotone_ms(arrivals@),
            total_len(chunks@) <= u64::MAX,
            i <= n,
            t.wf(),
            t.id == id,
            t.total == total,
            t.fed == total_len(chunks@.take(i as int)),
            i == 0 ==> t.last_emit_ms == 0,
            i > 0 ==> t.last_emit_ms <= arrivals@[i as int - 1],
            samples@.len() == t.emitted@.len(),
            t.timed@ == t.emitted@.len(),
            sample_total(samples@) == sum_u64(t.emitted@),
            forall|j: int|
                0 <= j < samples@.len() ==> (#[trigger] samples@[j]).id == id
                    && samples@[j].total == total,
        decreases n - i,
    {
        proof {
            lemma_total_len_take_succ(chunks@, i as int);
            lemma_total_len_take_le(chunks@, i as int + 1);
            lemma_total_len_nonneg(chunks@.take(i as int));
        }
        let len: usize = chunks[i].len();
        let ghost prev_emitted = t.emitted@;
        let ghost prev_samples = samples@;
        let r = t.on_chunk(len as u64, arrivals[i]);
        match r {
            Some(s) => {
                proof {
                    assert(t.emitted@.drop_last() =~= prev_emitted);
                    assert(prev_samples.push(s).drop_last() =~= prev_samples);
                }
                samples.push(s);
            },
            None => {},
        }
        i = i + 1;
    }
    proof {
        assert(chunks@.take(n as int) =~= chunks@);
    }
    let ghost prev_emitted = t.emitted@;
    let ghost prev_samples = samples@;
    let fin = t.finish();
    match fin {
        Some(s) => {
            proof {
                assert(t.emitted@.drop_last() =~= prev_emitted);
                assert(prev_samples.push(s).drop_last() =~= prev_samples);
            }
            samples.push(s);
        },
        None => {},
    }
    proof {
        if n > 0 {
            lemma_rate_bound(t, arrivals@[n as int - 1]);
        }
    }
    TransferLog { delivered: chunks, samples }
}

} // verus!
