use vstd::prelude::*;

verus! {

/// Milliseconds that must elapse between two rate-limited progress emissions.
pub const EMIT_INTERVAL_MS: u64 = 1000;

/// A point-in-time report of transfer progress: `progress` is the number of
/// bytes moved since the previous report (not cumulative), and `total` is the
/// expected size of the whole transfer, 0 when unknown.
#[derive(Clone, Copy, Debug, PartialEq, Eq, Structural)]
pub struct ProgressSample {
    pub id: u32,
    pub progress: u64,
    pub total: u64,
}

/// The sum of a sequence of byte counts.
pub open spec fn sum_u64(s: Seq<u64>) -> int
    decreases s.len(),
{
    if s.len() == 0 {
        0
    } else {
        sum_u64(s.drop_last()) + s.last()
    }
}

pub proof fn lemma_sum_u64_nonneg(s: Seq<u64>)
    ensures
        sum_u64(s) >= 0,
    decreases s.len(),
{
    if s.len() > 0 {
        lemma_sum_u64_nonneg(s.drop_last());
    }
}

/// The state one transfer keeps in order to report progress: a running count
/// of bytes not yet reported, and the time of the last rate-limited report.
///
/// `fed` counts every byte the tracker has observed.  The ghost fields record
/// the emission history: `emitted` holds every emitted `progress` value in
/// order, and `timed` counts how many of those were rate-limited emissions
/// (as opposed to the single final residual flush).
pub struct ProgressTracker {
    /// Caller-supplied transfer identifier, echoed in every sample.
    pub id: u32,
    /// Expected size of the transfer, 0 when unknown; echoed in every sample.
    pub total: u64,
    /// Bytes observed since the last emission (the residual).
    pub accum: u64,
    /// Bytes observed so far in the whole transfer.
    pub fed: u64,
    /// Time of the last rate-limited emission, in ms from the transfer start.
    pub last_emit_ms: u64,
    /// Every `progress` value emitted so far, in emission order.
    pub emitted: Ghost<Seq<u64>>,
    /// How many of the emissions were rate-limited (not the final flush).
    pub timed: Ghost<nat>,
}

impl ProgressTracker {
    /// Conservation and rate invariants: no observed byte is lost (it is in a
    /// past sample or in the residual), and `timed` emissions were each at
    /// least `EMIT_INTERVAL_MS` apart.
    pub open spec fn wf(self) -> bool {
        &&& sum_u64(self.emitted@) + self.accum == self.fed
        &&& self.timed@ <= self.emitted@.len()
        &&& EMIT_INTERVAL_MS * self.timed@ <= self.last_emit_ms
    }

    /// A fresh tracker for one transfer: nothing observed, nothing emitted,
    /// the rate-limit window starting at time 0.
    pub fn new(id: u32, total: u64) -> (t: Self)
        ensures
            t.wf(),
            t.id == id,
            t.total == total,
            t.accum == 0,
            t.fed == 0,
            t.last_emit_ms == 0,
            t.emitted@ == Seq::<u64>::empty(),
            t.timed@ == 0,
    {
        ProgressTracker {
            id,
            total,
            accum: 0,
            fed: 0,
            last_emit_ms: 0,
            emitted: Ghost(Seq::empty()),
            timed: Ghost(0nat),
        }
    }

    /// Account for one observed chunk of `len` bytes at time `now_ms`.
    ///
    /// The bytes join the residual; if a whole rate-limit interval has passed
    /// since the last emission, the residual is emitted as one sample and the
    /// window restarts at `now_ms`.  Returns the emitted sample, if any.
    pub fn on_chunk(&mut self, len: u64, now_ms: u64) -> (r: Option<ProgressSample>)
        requires
            old(self).wf(),
            old(self).last_emit_ms <= now_ms,
            old(self).fed + len <= u64::MAX,
        ensures
            final(self).wf(),
            final(self).id == old(self).id,
            final(self).total == old(self).total,
            final(self).fed == old(self).fed + len,
            now_ms - old(self).last_emit_ms >= EMIT_INTERVAL_MS ==> {
                &&& r == Some(
                    ProgressSample {
                        id: old(self).id,
                        progress: (old(self).accum + len) as u64,
                        total: old(self).total,
                    },
                )
                &&& final(self).accum == 0
                &&& final(self).last_emit_ms == now_ms
                &&& final(self).emitted@ == old(self).emitted@.push(
                    (old(self).accum + len) as u64,
                )
                &&& final(self).timed@ == old(self).timed@ + 1
            },
            now_ms - old(self).last_emit_ms < EMIT_INTERVAL_MS ==> {
                &&& r == None::<ProgressSample>
                &&& final(self).accum == old(self).accum + len
                &&& final(self).last_emit_ms == old(self).last_emit_ms
                &&& final(self).emitted@ == old(self).emitted@
                &&& final(self).timed@ == old(self).timed@
            },
    {
        proof {
            lemma_sum_u64_nonneg(self.emitted@);
        }
        self.accum = self.accum + len;
        self.fed = self.fed + len;
        if now_ms - self.last_emit_ms >= EMIT_INTERVAL_MS {
            let sample = ProgressSample { id: self.id, progress: self.accum, total: self.total };
            proof {
                assert(self.emitted@.push(sample.progress).drop_last() =~= self.emitted@);
            }
            self.emitted = Ghost(self.emitted@.push(sample.progress));
            self.timed = Ghost(self.timed@ + 1);
            self.accum = 0;
            self.last_emit_ms = now_ms;
            Some(sample)
        } else {
            None
        }
    }

    /// Final flush at the end of a successful transfer: if any bytes are
    /// still unreported, emit exactly one sample carrying the residual; if
    /// none are, emit nothing.  Afterwards every observed byte has been
    /// reported: the emitted values sum to `fed`.
    pub fn finish(&mut self) -> (r: Option<ProgressSample>)
        requires
            old(self).wf(),
        ensures
            final(self).wf(),
            final(self).id == old(self).id,
            final(self).total == old(self).total,
            final(self).fed == old(self).fed,
            final(self).accum == 0,
            final(self).last_emit_ms == old(self).last_emit_ms,
            final(self).timed@ == old(self).timed@,
            old(self).accum != 0 ==> {
                &&& r == Some(
                    ProgressSample {
                        id: old(self).id,
                        progress: old(self).accum,
                        total: old(self).total,
                    },
                )
                &&& final(self).emitted@ == old(self).emitted@.push(old(self).accum)
            },
            old(self).accum == 0 ==> {
                &&& r == None::<ProgressSample>
                &&& final(self).emitted@ == old(self).emitted@
            },
            sum_u64(final(self).emitted@) == final(self).fed,
    {
        if self.accum != 0 {
            let sample = ProgressSample { id: self.id, progress: self.accum, total: self.total };
            proof {
                assert(self.emitted@.push(sample.progress).drop_last() =~= self.emitted@);
            }
            self.emitted = Ghost(self.emitted@.push(sample.progress));
            self.accum = 0;
            Some(sample)
        } else {
            None
        }
    }
}

/// Rate bound: rate-limited emissions happen at least `EMIT_INTERVAL_MS`
/// apart, so a tracker whose last emission happened no later than `t_ms` has
/// made at most `t_ms / EMIT_INTERVAL_MS` rate-limited emissions.
pub proof fn lemma_rate_bound(t: ProgressTracker, t_ms: u64)
    requires
        t.wf(),
        t.last_emit_ms <= t_ms,
    ensures
        t.timed@ <= t_ms as int / EMIT_INTERVAL_MS as int,
{
    assert(t.timed@ <= t_ms as int / EMIT_INTERVAL_MS as int) by (nonlinear_arith)
        requires
            EMIT_INTERVAL_MS * t.timed@ <= t_ms,
            EMIT_INTERVAL_MS == 1000,
    ;
}

/// Mid-stream accounting: at every point of a transfer the bytes reported
/// across all emitted samples never exceed the bytes actually observed, and
/// the difference is exactly the unflushed residual.  A transfer that fails
/// before its final flush therefore drops at most the residual from its
/// reporting, never reports a byte twice, and never reports a byte it did
/// not move.
pub proof fn lemma_partial_accounting(t: ProgressTracker)
    requires
        t.wf(),
    ensures
        sum_u64(t.emitted@) == t.fed - t.accum,
        sum_u64(t.emitted@) <= t.fed,
{
}

/// The total-size hint for a transfer: the declared content length when
/// present, 0 when the length is unknown.
pub fn total_from_content_length(len: Option<u64>) -> (t: u64)
    ensures
        t == match len {
            Option::Some(v) => v,
            Option::None => 0u64,
        },
{
    match len {
        Option::Some(v) => v,
        Option::None => 0,
    }
}

} // verus!
