//! Batch planning and orchestration: sequence indices are assigned in input
//! order before any concurrent work begins, every job's output path is fixed
//! at planning time, per-item outcomes are aggregated without one failure
//! aborting the batch, and the batch state machine signals completion exactly
//! once, when the last outstanding job has been recorded.

use vstd::prelude::*;

use crate::error::ConversionError;
use crate::format::{FormatTag, extension_of, selected_format, spec_extension,
    spec_selected_format};
use crate::namer::{name_for, name_for_stem, spec_sequence_name, spec_stem_name,
    spec_stems_distinct, stems_distinct, lemma_sequence_names_distinct,
    lemma_stem_names_distinct};

verus! {

use vstd::string::StringExecFns;

/// How output files are named: from the request's base name and the job's
/// sequence index, or from the stem of the input file name.
#[derive(Clone, Copy, Debug, PartialEq, Eq, Structural)]
pub enum NamingScheme {
    SequenceIndexed,
    PreserveStem,
}

/// One validated conversion request. Immutable once constructed.
pub struct ConversionRequest {
    pub input_path: String,
    pub output_dir: String,
    pub base_name: String,
    pub target_format: FormatTag,
}

/// The unit dispatched to a worker: a request, the sequence index assigned
/// at fan-out time in input order, and the output path fixed at planning
/// time.
pub struct BatchJob {
    pub request: ConversionRequest,
    pub sequence_index: u32,
    pub output_path: String,
}

/// The recorded result of one job. Outcomes are keyed by their own sequence
/// index, so the order in which they are collected does not matter.
pub struct ConversionOutcome {
    pub sequence_index: u32,
    pub input_path: String,
    pub output_path: String,
    pub result: Result<(), ConversionError>,
}

/// One failed item of a batch, by input path and reason.
pub struct FailedItem {
    pub input_path: String,
    pub reason: ConversionError,
}

/// The aggregate result of a batch, produced once all jobs have finished.
pub struct BatchResult {
    pub total: usize,
    pub succeeded: usize,
    pub failed: Vec<FailedItem>,
}

/// The output path a job with the given inputs must carry.
pub open spec fn spec_output_path(
    scheme: NamingScheme,
    dir: Seq<char>,
    base: Seq<char>,
    input: Seq<char>,
    index: nat,
    tag: FormatTag,
) -> Seq<char> {
    match scheme {
        NamingScheme::SequenceIndexed => spec_sequence_name(dir, base, index, spec_extension(tag)),
        NamingScheme::PreserveStem => spec_stem_name(dir, input, spec_extension(tag)),
    }
}

/// What a correctly planned batch looks like: one job per input, in input
/// order, with the job at position `k` carrying sequence index `k` and the
/// output path the naming scheme assigns it.
pub open spec fn spec_planned(
    jobs: Seq<BatchJob>,
    paths: Seq<Seq<char>>,
    dir: Seq<char>,
    base: Seq<char>,
    scheme: NamingScheme,
    tag: FormatTag,
) -> bool {
    &&& jobs.len() == paths.len()
    &&& forall|k: int|
        0 <= k < jobs.len() ==> {
            &&& (#[trigger] jobs[k]).sequence_index == k
            &&& jobs[k].request.input_path@ == paths[k]
            &&& jobs[k].request.output_dir@ == dir
            &&& jobs[k].request.base_name@ == base
            &&& jobs[k].request.target_format == tag
            &&& jobs[k].output_path@ == spec_output_path(scheme, dir, base, paths[k], k as nat, tag)
        }
}

/// Plan a batch: assign sequence indices in input order and fix every output
/// path, before any concurrent work begins. The planned paths are pairwise
/// distinct, which is why the stem-preserving scheme demands inputs with
/// pairwise distinct stems; `prepare_batch` checks that and refuses a batch
/// without it.
pub fn plan_batch(
    paths: &Vec<String>,
    output_dir: &str,
    base_name: &str,
    scheme: NamingScheme,
    tag: FormatTag,
) -> (jobs: Vec<BatchJob>)
    requires
        paths@.len() <= u32::MAX,
        scheme is PreserveStem ==> spec_stems_distinct(paths.deep_view()),
    ensures
        spec_planned(jobs@, paths.deep_view(), output_dir@, base_name@, scheme, tag),
        forall|k1: int, k2: int|
            0 <= k1 < k2 < jobs@.len() ==> (#[trigger] jobs@[k1]).output_path@ != (
            #[trigger] jobs@[k2]).output_path@,
{
    let total = paths.len();
    let mut jobs: Vec<BatchJob> = Vec::new();
    let extension = extension_of(tag);
    let mut i: usize = 0;
    while i < total
        invariant
            total == paths@.len(),
            total <= u32::MAX,
            i <= total,
            jobs@.len() == i,
            extension@ == spec_extension(tag),
            forall|k: int|
                0 <= k < i ==> {
                    &&& (#[trigger] jobs@[k]).sequence_index == k
                    &&& jobs@[k].request.input_path@ == paths.deep_view()[k]
                    &&& jobs@[k].request.output_dir@ == output_dir@
                    &&& jobs@[k].request.base_name@ == base_name@
                    &&& jobs@[k].request.target_format == tag
                    &&& jobs@[k].output_path@ == spec_output_path(
                        scheme,
                        output_dir@,
                        base_name@,
                        paths.deep_view()[k],
                        k as nat,
                        tag,
                    )
                },
        decreases total - i,
    {
        let input = &paths[i];
        proof {
            assert(paths.deep_view()[i as int] == paths@[i as int].deep_view());
            assert(paths@[i as int].deep_view() == paths@[i as int]@);
        }
        let output_path = match scheme {
            NamingScheme::SequenceIndexed => name_for(output_dir, base_name, i as u32, extension),
            NamingScheme::PreserveStem => name_for_stem(output_dir, input.as_str(), extension),
        };
        let job = BatchJob {
            request: ConversionRequest {
                input_path: input.clone(),
                output_dir: String::from_str(output_dir),
                base_name: String::from_str(base_name),
                target_format: tag,
            },
            sequence_index: i as u32,
            output_path,
        };
        jobs.push(job);
        i += 1;
    }
    proof {
        lemma_planned_collision_free(
            jobs@,
            paths.deep_view(),
            output_dir@,
            base_name@,
            scheme,
            tag,
        );
    }
    jobs
}

/// Resolve the format selection and plan the batch. A structural
/// misconfiguration — an unresolvable selection, or inputs whose file stems
/// collide under the stem-preserving scheme — is a configuration error,
/// reported before any job is dispatched: no jobs exist, so nothing runs and
/// nothing is written. On success the planned output paths are pairwise
/// distinct.
pub fn prepare_batch(
    paths: &Vec<String>,
    output_dir: &str,
    base_name: &str,
    scheme: NamingScheme,
    format_index: i32,
) -> (r: Result<Vec<BatchJob>, ConversionError>)
    requires
        paths@.len() <= u32::MAX,
    ensures
        r is Ok <==> spec_selected_format(format_index) is Some && (scheme is PreserveStem
            ==> spec_stems_distinct(paths.deep_view())),
        r is Err ==> r->Err_0 == ConversionError::ConfigError,
        r is Ok ==> spec_planned(
            r->Ok_0@,
            paths.deep_view(),
            output_dir@,
            base_name@,
            scheme,
            spec_selected_format(format_index)->0,
        ),
        r is Ok ==> forall|k1: int, k2: int|
            0 <= k1 < k2 < r->Ok_0@.len() ==> (#[trigger] r->Ok_0@[k1]).output_path@ != (
            #[trigger] r->Ok_0@[k2]).output_path@,
{
    let tag = match selected_format(format_index) {
        Ok(tag) => tag,
        Err(e) => {
            return Err(e);
        },
    };
    let stem_named = match scheme {
        NamingScheme::PreserveStem => true,
        NamingScheme::SequenceIndexed => false,
    };
    if stem_named && !stems_distinct(paths) {
        return Err(ConversionError::ConfigError);
    }
    Ok(plan_batch(paths, output_dir, base_name, scheme, tag))
}

/// Every planned job carries a distinct sequence index in `[0, N)`, namely
/// its own position: indices are allocated before any concurrent work and
/// never reused.
pub proof fn lemma_planned_indices_distinct(
    jobs: Seq<BatchJob>,
    paths: Seq<Seq<char>>,
    dir: Seq<char>,
    base: Seq<char>,
    scheme: NamingScheme,
    tag: FormatTag,
)
    requires
        spec_planned(jobs, paths, dir, base, scheme, tag),
    ensures
        jobs.len() == paths.len(),
        forall|k: int| 0 <= k < jobs.len() ==> 0 <= (#[trigger] jobs[k]).sequence_index < jobs.len(),
        forall|k1: int, k2: int|
            0 <= k1 < k2 < jobs.len() ==> (#[trigger] jobs[k1]).sequence_index != (
            #[trigger] jobs[k2]).sequence_index,
{
}

/// Collision freedom: no two jobs of one batch write to the same output
/// path. Unconditional under the sequence-indexed scheme; under the
/// stem-preserving scheme it rests on the pairwise distinct file stems that
/// planning under that scheme demands (two inputs sharing a stem would
/// collide there).
pub proof fn lemma_planned_collision_free(
    jobs: Seq<BatchJob>,
    paths: Seq<Seq<char>>,
    dir: Seq<char>,
    base: Seq<char>,
    scheme: NamingScheme,
    tag: FormatTag,
)
    requires
        spec_planned(jobs, paths, dir, base, scheme, tag),
        scheme is PreserveStem ==> spec_stems_distinct(paths),
    ensures
        forall|k1: int, k2: int|
            0 <= k1 < k2 < jobs.len() ==> (#[trigger] jobs[k1]).output_path@ != (
            #[trigger] jobs[k2]).output_path@,
{
    assert forall|k1: int, k2: int|
        0 <= k1 < k2 < jobs.len() implies (#[trigger] jobs[k1]).output_path@ != (
    #[trigger] jobs[k2]).output_path@ by {
        let ext = spec_extension(tag);
        match scheme {
            NamingScheme::SequenceIndexed => {
                lemma_sequence_names_distinct(dir, base, k1 as nat, k2 as nat, ext);
            },
            NamingScheme::PreserveStem => {
                lemma_stem_names_distinct(dir, paths[k1], paths[k2], ext);
            },
        }
    }
}

/// Planning is a pure function of its inputs: two plans of the same batch
/// agree job for job on input path, sequence index and output path. Re-running
/// a batch therefore produces the same set of output file names.
pub proof fn lemma_plan_deterministic(
    jobs1: Seq<BatchJob>,
    jobs2: Seq<BatchJob>,
    paths: Seq<Seq<char>>,
    dir: Seq<char>,
    base: Seq<char>,
    scheme: NamingScheme,
    tag: FormatTag,
)
    requires
        spec_planned(jobs1, paths, dir, base, scheme, tag),
        spec_planned(jobs2, paths, dir, base, scheme, tag),
    ensures
        jobs1.len() == jobs2.len(),
        forall|k: int|
            0 <= k < jobs1.len() ==> {
                &&& (#[trigger] jobs1[k]).sequence_index == jobs2[k].sequence_index
                &&& jobs1[k].request.input_path@ == jobs2[k].request.input_path@
                &&& jobs1[k].output_path@ == jobs2[k].output_path@
            },
{
}

/// Build the outcome a worker reports for its job: keyed by the job's own
/// sequence index and carrying the job's paths, so outcomes can be collected
/// in any order.
pub fn job_outcome(job: &BatchJob, result: Result<(), ConversionError>) -> (o: ConversionOutcome)
    ensures
        o.sequence_index == job.sequence_index,
        o.input_path@ == job.request.input_path@,
        o.output_path@ == job.output_path@,
        o.result == result,
{
    ConversionOutcome {
        sequence_index: job.sequence_index,
        input_path: job.request.input_path.clone(),
        output_path: job.output_path.clone(),
        result,
    }
}

/// Whether an outcome reports on one of the given jobs: it is keyed by a
/// job's sequence index and carries that job's paths.
pub open spec fn spec_outcome_of_job(o: ConversionOutcome, jobs: Seq<BatchJob>) -> bool {
    &&& o.sequence_index < jobs.len()
    &&& o.input_path@ == jobs[o.sequence_index as int].request.input_path@
    &&& o.output_path@ == jobs[o.sequence_index as int].output_path@
}

/// Collision freedom carried through to the recorded outcomes: outcomes of a
/// planned batch that report on distinct jobs never name the same output
/// path, so no two jobs — succeeding or not — write to one file.
pub proof fn lemma_outcome_paths_distinct(
    outs: Seq<ConversionOutcome>,
    jobs: Seq<BatchJob>,
    paths: Seq<Seq<char>>,
    dir: Seq<char>,
    base: Seq<char>,
    scheme: NamingScheme,
    tag: FormatTag,
)
    requires
        spec_planned(jobs, paths, dir, base, scheme, tag),
        scheme is PreserveStem ==> spec_stems_distinct(paths),
        forall|k: int| 0 <= k < outs.len() ==> spec_outcome_of_job(#[trigger] outs[k], jobs),
        forall|k1: int, k2: int|
            0 <= k1 < k2 < outs.len() ==> (#[trigger] outs[k1]).sequence_index != (
            #[trigger] outs[k2]).sequence_index,
    ensures
        forall|k1: int, k2: int|
            0 <= k1 < k2 < outs.len() ==> (#[trigger] outs[k1]).output_path@ != (
            #[trigger] outs[k2]).output_path@,
{
    lemma_planned_collision_free(jobs, paths, dir, base, scheme, tag);
    assert forall|k1: int, k2: int|
        0 <= k1 < k2 < outs.len() implies (#[trigger] outs[k1]).output_path@ != (
    #[trigger] outs[k2]).output_path@ by {
        let i1 = outs[k1].sequence_index as int;
        let i2 = outs[k2].sequence_index as int;
        assert(jobs[i1].output_path@ != jobs[i2].output_path@);
    }
}

/// How many outcomes report success.
pub open spec fn spec_success_count(outs: Seq<ConversionOutcome>) -> nat
    decreases outs.len(),
{
    if outs.len() == 0 {
        0
    } else {
        spec_success_count(outs.drop_last()) + if outs.last().result is Ok {
            1nat
        } else {
            0nat
        }
    }
}

/// The failed items of a batch, in the order their outcomes were recorded:
/// input path and reason of every outcome that reports an error.
pub open spec fn spec_failures(outs: Seq<ConversionOutcome>) -> Seq<FailedItem>
    decreases outs.len(),
{
    if outs.len() == 0 {
        Seq::empty()
    } else if outs.last().result is Err {
        spec_failures(outs.drop_last()).push(
            FailedItem {
                input_path: outs.last().input_path,
                reason: outs.last().result->Err_0,
            },
        )
    } else {
        spec_failures(outs.drop_last())
    }
}

/// Successes and failures partition a batch: every outcome is counted on
/// exactly one side, so partial success is an ordinary, fully accounted-for
/// result.
pub proof fn lemma_outcome_partition(outs: Seq<ConversionOutcome>)
    ensures
        spec_success_count(outs) + spec_failures(outs).len() == outs.len(),
    decreases outs.len(),
{
    if outs.len() > 0 {
        lemma_outcome_partition(outs.drop_last());
    }
}

} // verus!
