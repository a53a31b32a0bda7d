//! The batch state machine: `NotStarted -> Running -> Draining -> Done`,
//! with no transition back. A runner tracks exactly one batch. Workers'
//! outcomes are recorded one by one, in any order; the aggregate result is
//! produced exactly once, at the single transition into `Done`, when the last
//! outstanding job's outcome lands — never earlier, never twice. No method
//! accepts a runner that is already `Done`.

use vstd::prelude::*;

use crate::batch::{BatchResult, ConversionOutcome, FailedItem, spec_failures, spec_success_count,
    lemma_outcome_partition};

verus! {

/// Where a batch stands.
#[derive(Clone, Copy, Debug, PartialEq, Eq, Structural)]
pub enum BatchPhase {
    /// Created, the start signal not yet given.
    NotStarted,
    /// Started; jobs are being dispatched and may already be completing.
    Running,
    /// All jobs dispatched; waiting for the last outcomes.
    Draining,
    /// Every job's outcome is recorded and the result was handed out.
    Done,
}

/// How many entries of a sequence are true.
pub open spec fn spec_true_count(s: Seq<bool>) -> nat
    decreases s.len(),
{
    if s.len() == 0 {
        0
    } else {
        spec_true_count(s.drop_last()) + if s.last() {
            1nat
        } else {
            0nat
        }
    }
}

proof fn lemma_true_count_le(s: Seq<bool>)
    ensures
        spec_true_count(s) <= s.len(),
    decreases s.len(),
{
    if s.len() > 0 {
        lemma_true_count_le(s.drop_last());
    }
}

proof fn lemma_true_count_set(s: Seq<bool>, i: int)
    requires
        0 <= i < s.len(),
        !s[i],
    ensures
        spec_true_count(s.update(i, true)) == spec_true_count(s) + 1,
    decreases s.len(),
{
    let t = s.update(i, true);
    if i == s.len() - 1 {
        assert(t.drop_last() =~= s.drop_last());
        assert(t.last());
    } else {
        assert(t.drop_last() =~= s.drop_last().update(i, true));
        assert(t.last() == s.last());
        lemma_true_count_set(s.drop_last(), i);
    }
}

/// Whether a result reports exactly the given outcomes.
pub open spec fn spec_result_matches(r: BatchResult, outs: Seq<ConversionOutcome>) -> bool {
    &&& r.total == outs.len()
    &&& r.succeeded == spec_success_count(outs)
    &&& r.failed@ == spec_failures(outs)
}

/// The orchestrator's bookkeeping for one batch: the fixed number of jobs,
/// which sequence indices have reported, the outcomes in the order they were
/// recorded, and the phase.
pub struct BatchRunner {
    total: usize,
    recorded: Vec<bool>,
    outcomes: Vec<ConversionOutcome>,
    phase: BatchPhase,
}

impl BatchRunner {
    /// The number of jobs of the batch.
    pub closed spec fn spec_total(&self) -> nat {
        self.total as nat
    }

    /// The phase the batch is in.
    pub closed spec fn spec_phase(&self) -> BatchPhase {
        self.phase
    }

    /// The outcomes recorded so far, in recording order.
    pub closed spec fn spec_outcomes(&self) -> Seq<ConversionOutcome> {
        self.outcomes@
    }

    /// Whether the job with this sequence index has already reported.
    pub closed spec fn spec_recorded(&self, index: int) -> bool {
        self.recorded@[index]
    }

    /// The runner's invariant: one bookkeeping slot per job; outcomes carry
    /// in-range, pairwise distinct sequence indices; a slot is spent for
    /// every recorded outcome; a batch that is not started has none, and a
    /// batch that is done has all of them.
    pub closed spec fn wf(&self) -> bool {
        &&& self.recorded@.len() == self.total as nat
        &&& self.outcomes@.len() == spec_true_count(self.recorded@)
        &&& forall|k: int|
            0 <= k < self.outcomes@.len() ==> (#[trigger] self.outcomes@[k]).sequence_index
                < self.total
        &&& forall|k: int|
            0 <= k < self.outcomes@.len() ==> self.recorded@[(
            #[trigger] self.outcomes@[k]).sequence_index as int]
        &&& forall|k1: int, k2: int|
            0 <= k1 < k2 < self.outcomes@.len() ==> (#[trigger] self.outcomes@[k1]).sequence_index
                != (#[trigger] self.outcomes@[k2]).sequence_index
        &&& (self.phase is NotStarted ==> self.outcomes@.len() == 0)
        &&& (self.phase is Done ==> self.outcomes@.len() == self.total as nat)
    }

    /// A fresh runner for a batch of `total` jobs.
    pub fn new(total: usize) -> (r: BatchRunner)
        ensures
            r.wf(),
            r.spec_phase() is NotStarted,
            r.spec_total() == total,
            r.spec_outcomes() == Seq::<ConversionOutcome>::empty(),
            forall|j: int| 0 <= j < total ==> !r.spec_recorded(j),
    {
        let recorded: Vec<bool> = vec![false; total];
        proof {
            lemma_all_false_count(recorded@);
        }
        BatchRunner { total, recorded, outcomes: Vec::new(), phase: BatchPhase::NotStarted }
    }

    /// Start the batch: the caller signals batch-start to its notifier
    /// before dispatching any work, so a slow first item never leaves the
    /// caller without feedback.
    pub fn begin(&mut self)
        requires
            old(self).wf(),
            old(self).spec_phase() is NotStarted,
        ensures
            final(self).wf(),
            final(self).spec_phase() is Running,
            final(self).spec_total() == old(self).spec_total(),
            final(self).spec_outcomes() == old(self).spec_outcomes(),
            forall|j: int| final(self).spec_recorded(j) == old(self).spec_recorded(j),
    {
        self.phase = BatchPhase::Running;
    }

    /// Whether the job with this sequence index has already reported. A
    /// caller consults this before recording, so that no outcome is ever
    /// counted twice.
    pub fn is_recorded(&self, index: u32) -> (b: bool)
        requires
            self.wf(),
            index < self.spec_total(),
        ensures
            b == self.spec_recorded(index as int),
    {
        self.recorded[index as usize]
    }

    /// Declare that every job has been handed to a worker: the batch drains.
    /// In the rare run where every outcome already landed, the batch is done
    /// here, and this call — not a later one — hands out the result.
    pub fn all_dispatched(&mut self) -> (done: Option<BatchResult>)
        requires
            old(self).wf(),
            old(self).spec_phase() is Running,
        ensures
            final(self).wf(),
            final(self).spec_total() == old(self).spec_total(),
            final(self).spec_outcomes() == old(self).spec_outcomes(),
            forall|j: int| final(self).spec_recorded(j) == old(self).spec_recorded(j),
            old(self).spec_outcomes().len() == old(self).spec_total() ==> {
                &&& final(self).spec_phase() is Done
                &&& done is Some
                &&& spec_result_matches(done->0, old(self).spec_outcomes())
            },
            old(self).spec_outcomes().len() < old(self).spec_total() ==> {
                &&& final(self).spec_phase() is Draining
                &&& done is None
            },
    {
        proof {
            lemma_true_count_le(self.recorded@);
        }
        if self.outcomes.len() == self.total {
            self.phase = BatchPhase::Done;
            Some(summarize(&self.outcomes))
        } else {
            self.phase = BatchPhase::Draining;
            None
        }
    }

    /// Record one job's outcome. Errors are recorded like successes: no
    /// failure aborts the batch or is dropped. Returns the aggregate result
    /// exactly when this outcome is the last outstanding one of a fully
    /// dispatched batch; that is the only transition into `Done`.
    pub fn record(&mut self, outcome: ConversionOutcome) -> (done: Option<BatchResult>)
        requires
            old(self).wf(),
            old(self).spec_phase() is Running || old(self).spec_phase() is Draining,
            outcome.sequence_index < old(self).spec_total(),
            !old(self).spec_recorded(outcome.sequence_index as int),
        ensures
            final(self).wf(),
            final(self).spec_total() == old(self).spec_total(),
            final(self).spec_outcomes() == old(self).spec_outcomes().push(outcome),
            final(self).spec_recorded(outcome.sequence_index as int),
            forall|j: int|
                0 <= j < old(self).spec_total() && j != outcome.sequence_index as int
                    ==> final(self).spec_recorded(j) == old(self).spec_recorded(j),
            (old(self).spec_phase() is Draining && old(self).spec_outcomes().len() + 1 == old(
                self,
            ).spec_total()) ==> {
                &&& final(self).spec_phase() is Done
                &&& done is Some
                &&& spec_result_matches(done->0, old(self).spec_outcomes().push(outcome))
            },
            !(old(self).spec_phase() is Draining && old(self).spec_outcomes().len() + 1 == old(
                self,
            ).spec_total()) ==> {
                &&& final(self).spec_phase() == old(self).spec_phase()
                &&& done is None
            },
    {
        proof {
            lemma_true_count_set(self.recorded@, outcome.sequence_index as int);
        }
        let index = outcome.sequence_index as usize;
        self.recorded.set(index, true);
        self.outcomes.push(outcome);
        let draining = match self.phase {
            BatchPhase::Draining => true,
            _ => false,
        };
        if draining && self.outcomes.len() == self.total {
            self.phase = BatchPhase::Done;
            Some(summarize(&self.outcomes))
        } else {
            None
        }
    }
}

proof fn lemma_all_false_count(s: Seq<bool>)
    requires
        forall|j: int| 0 <= j < s.len() ==> !s[j],
    ensures
        spec_true_count(s) == 0,
    decreases s.len(),
{
    if s.len() > 0 {
        lemma_all_false_count(s.drop_last());
    }
}

/// Aggregate the recorded outcomes into the final report.
fn summarize(outs: &Vec<ConversionOutcome>) -> (r: BatchResult)
    ensures
        spec_result_matches(r, outs@),
{
    let total = outs.len();
    let mut succeeded: usize = 0;
    let mut failed: Vec<FailedItem> = Vec::new();
    let mut i: usize = 0;
    proof {
        assert(outs@.subrange(0, 0) =~= Seq::<ConversionOutcome>::empty());
    }
    while i < total
        invariant
            total == outs@.len(),
            i <= total,
            succeeded == spec_success_count(outs@.subrange(0, i as int)),
            failed@ == spec_failures(outs@.subrange(0, i as int)),
        decreases total - i,
    {
        proof {
            lemma_outcome_partition(outs@.subrange(0, i as int));
            assert(outs@.subrange(0, i as int + 1).drop_last() =~= outs@.subrange(0, i as int));
            assert(outs@.subrange(0, i as int + 1).last() == outs@[i as int]);
        }
        let out = &outs[i];
        match &out.result {
            Ok(_) => {
                succeeded += 1;
            },
            Err(reason) => {
                failed.push(FailedItem { input_path: out.input_path.clone(), reason: *reason });
            },
        }
        i += 1;
    }
    proof {
        assert(outs@.subrange(0, total as int) =~= outs@);
    }
    BatchResult { total, succeeded, failed }
}

/// Once a batch is done, exactly as many outcomes exist as jobs were
/// dispatched, each carrying a distinct sequence index within the batch —
/// none was dropped and none was counted twice.
pub proof fn lemma_done_outcomes_complete(r: &BatchRunner)
    requires
        r.wf(),
        r.spec_phase() is Done,
    ensures
        r.spec_outcomes().len() == r.spec_total(),
        forall|k: int|
            0 <= k < r.spec_outcomes().len() ==> (#[trigger] r.spec_outcomes()[k]).sequence_index
                < r.spec_total(),
        forall|k1: int, k2: int|
            0 <= k1 < k2 < r.spec_outcomes().len() ==> (
            #[trigger] r.spec_outcomes()[k1]).sequence_index != (
            #[trigger] r.spec_outcomes()[k2]).sequence_index,
{
}

} // verus!
