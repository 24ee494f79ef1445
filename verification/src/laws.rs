//! Batch-level laws of the pipeline: what whole runs of the state machine
//! guarantee, proved once and for all over [`spec_step`].

use vstd::prelude::*;
use crate::names::valid_job_name;
use crate::pipeline::{
    action_for, spec_init, spec_step, wf, Action, Event, JobStatus, Phase, PipelineView,
};
use crate::response::{array_body, json_array_spec, lemma_quoted_plain, quoted};
use crate::text::is_alnum_char;

verus! {

/// The state after feeding a whole sequence of events, first to last.
pub open spec fn spec_run(v: PipelineView, es: Seq<Event>) -> PipelineView
    decreases es.len(),
{
    if es.len() == 0 {
        v
    } else {
        spec_run(spec_step(v, es[0]), es.skip(1))
    }
}

/// True when the event is one the pipeline is waiting for in this state.
pub open spec fn fits(v: PipelineView, e: Event) -> bool {
    match (v.phase, e) {
        (Phase::Persisting, Event::Persisted) => true,
        (Phase::Persisting, Event::PersistFailed(_)) => true,
        (Phase::Uploading, Event::Uploaded) => true,
        (Phase::Uploading, Event::UploadFailed(_)) => true,
        (Phase::Naming, Event::Named(_)) => true,
        (Phase::Starting, Event::Started) => true,
        (Phase::Starting, Event::StartFailed(_)) => true,
        (Phase::Polling, Event::Polled(_)) => true,
        (Phase::Polling, Event::PollFailed(_)) => true,
        (Phase::Fetching, Event::Fetched(_)) => true,
        (Phase::Fetching, Event::FetchFailed(_)) => true,
        (Phase::Analyzing, Event::Analyzed) => true,
        (Phase::Analyzing, Event::AnalyzeFailed(_)) => true,
        _ => false,
    }
}

/// True of the events that report a failed step, including a poll that
/// reports the job's terminal failure.
pub open spec fn is_failure(e: Event) -> bool {
    match e {
        Event::PersistFailed(_) => true,
        Event::UploadFailed(_) => true,
        Event::StartFailed(_) => true,
        Event::Polled(s) => s == JobStatus::Failed,
        Event::PollFailed(_) => true,
        Event::FetchFailed(_) => true,
        Event::AnalyzeFailed(_) => true,
        _ => false,
    }
}

/// One step preserves the machine invariant, and the batch size never
/// changes.
pub proof fn lemma_step_wf(v: PipelineView, e: Event)
    requires
        wf(v),
    ensures
        wf(spec_step(v, e)),
        spec_step(v, e).total == v.total,
{
}

/// A whole run preserves the machine invariant and the batch size.
pub proof fn lemma_run_wf(v: PipelineView, es: Seq<Event>)
    requires
        wf(v),
    ensures
        wf(spec_run(v, es)),
        spec_run(v, es).total == v.total,
    decreases es.len(),
{
    if es.len() > 0 {
        lemma_step_wf(v, es[0]);
        lemma_run_wf(spec_step(v, es[0]), es.skip(1));
    }
}

/// A run can be cut at any point: running `es` is running its first `j`
/// events, then the rest.
pub proof fn lemma_run_split(v: PipelineView, es: Seq<Event>, j: int)
    requires
        0 <= j <= es.len(),
    ensures
        spec_run(v, es) == spec_run(spec_run(v, es.take(j)), es.skip(j)),
    decreases j,
{
    if j == 0 {
        assert(es.take(0).len() == 0);
        assert(es.skip(0) =~= es);
    } else {
        let v1 = spec_step(v, es[0]);
        lemma_run_split(v1, es.skip(1), j - 1);
        assert(es.skip(1).take(j - 1) =~= es.take(j).skip(1));
        assert(es.skip(1).skip(j - 1) =~= es.skip(j));
        assert(es.take(j)[0] == es[0]);
        assert(spec_run(v, es.take(j)) == spec_run(v1, es.take(j).skip(1)));
    }
}

/// A batch of `total` files whose run ends complete reports exactly `total`
/// job names: the response array of a fully successful batch has one entry
/// per file, and the only response such a state admits is the success array.
pub proof fn lemma_complete_batch_length(total: int, es: Seq<Event>)
    requires
        total >= 0,
        spec_run(spec_init(total), es).phase == Phase::Done,
    ensures
        spec_run(spec_init(total), es).results.len() == total,
        forall|a: Action| action_for(spec_run(spec_init(total), es), a) ==> a is Succeed,
{
    lemma_run_wf(spec_init(total), es);
}

/// One step either leaves the recorded results alone or appends the current
/// job name at the end: nothing is ever reordered or dropped.
pub proof fn lemma_step_extends_results(v: PipelineView, e: Event)
    ensures
        spec_step(v, e).results == v.results || spec_step(v, e).results == v.results.push(
            v.job_name,
        ),
{
}

/// Results already recorded stay, in order: over any run, the old result
/// list is a prefix of the new one.
pub proof fn lemma_run_preserves_order(v: PipelineView, es: Seq<Event>)
    ensures
        v.results.is_prefix_of(spec_run(v, es).results),
    decreases es.len(),
{
    if es.len() == 0 {
        assert(v.results.subrange(0, v.results.len() as int) =~= v.results);
    } else {
        let v1 = spec_step(v, es[0]);
        lemma_step_extends_results(v, es[0]);
        lemma_run_preserves_order(v1, es.skip(1));
        let w = spec_run(v1, es.skip(1));
        assert(v1.results.subrange(0, v.results.len() as int) =~= v.results);
        assert(w.results.subrange(0, v.results.len() as int) =~= v.results.subrange(
            0,
            v.results.len() as int,
        ));
        assert(v.results.is_prefix_of(w.results));
    }
}

/// A failed batch stays failed, whatever else comes in: the state, the
/// recorded error included, never changes again.
pub proof fn lemma_failed_absorbing(v: PipelineView, es: Seq<Event>)
    requires
        v.phase == Phase::Failed,
    ensures
        spec_run(v, es) == v,
    decreases es.len(),
{
    if es.len() > 0 {
        assert(spec_step(v, es[0]) == v);
        lemma_failed_absorbing(v, es.skip(1));
    }
}

/// A failure event that fits the current step fails the machine at once.
pub proof fn lemma_failure_event_fails(v: PipelineView, e: Event)
    requires
        fits(v, e),
        is_failure(e),
    ensures
        spec_step(v, e).phase == Phase::Failed,
{
}

/// Fail-fast for the whole batch: if at any point of a run the pending step
/// reports a failure, the batch ends failed, never complete — so no list of
/// job names is ever part of the response (the action for a failed state is
/// the single error).
pub proof fn lemma_batch_failure(total: int, es: Seq<Event>, j: int)
    requires
        0 <= j < es.len(),
        fits(spec_run(spec_init(total), es.take(j)), es[j]),
        is_failure(es[j]),
    ensures
        spec_run(spec_init(total), es).phase == Phase::Failed,
        spec_run(spec_init(total), es).phase != Phase::Done,
        forall|a: Action| action_for(spec_run(spec_init(total), es), a) ==> a is Fail,
{
    let v0 = spec_init(total);
    let vj = spec_run(v0, es.take(j));
    lemma_run_split(v0, es, j);
    lemma_failure_event_fails(vj, es[j]);
    assert(es.skip(j).len() > 0);
    assert(es.skip(j)[0] == es[j]);
    assert(es.skip(j).skip(1) =~= es.skip(j + 1));
    assert(spec_run(vj, es.skip(j)) == spec_run(spec_step(vj, es[j]), es.skip(j).skip(1)));
    lemma_failed_absorbing(spec_step(vj, es[j]), es.skip(j).skip(1));
}

/// Polling stops at the first terminal status.  After [PENDING, PENDING,
/// COMPLETED] the machine stands in the fetch step, everything else
/// unchanged — its next action is the fetch, not a further poll.  After
/// [PENDING, FAILED] the batch is failed and no further poll is issued.
pub proof fn lemma_poll_terminates(v: PipelineView)
    requires
        wf(v),
        v.phase == Phase::Polling,
    ensures
        spec_run(
            v,
            seq![
                Event::Polled(JobStatus::Pending),
                Event::Polled(JobStatus::Pending),
                Event::Polled(JobStatus::Completed),
            ],
        ) == (PipelineView { phase: Phase::Fetching, ..v }),
        spec_run(v, seq![Event::Polled(JobStatus::Pending), Event::Polled(JobStatus::Failed)])
            .phase == Phase::Failed,
{
    let e_p = Event::Polled(JobStatus::Pending);
    let e_c = Event::Polled(JobStatus::Completed);
    let e_f = Event::Polled(JobStatus::Failed);
    assert(spec_step(v, e_p) == v);
    assert(spec_run(spec_step(v, e_c), Seq::<Event>::empty()) == spec_step(v, e_c));
    assert(seq![e_c].skip(1) =~= Seq::<Event>::empty());
    assert(spec_run(v, seq![e_c]) == spec_step(v, e_c));
    assert(seq![e_p, e_c].skip(1) =~= seq![e_c]);
    assert(spec_run(v, seq![e_p, e_c]) == spec_run(v, seq![e_c]));
    let es3 = seq![e_p, e_p, e_c];
    assert(es3.skip(1) =~= seq![e_p, e_c]);
    assert(spec_run(v, es3) == spec_run(v, seq![e_p, e_c]));
    assert(spec_run(v, es3) == spec_step(v, e_c));
    assert(spec_run(spec_step(v, e_f), Seq::<Event>::empty()) == spec_step(v, e_f));
    assert(seq![e_f].skip(1) =~= Seq::<Event>::empty());
    assert(spec_run(v, seq![e_f]) == spec_step(v, e_f));
    let es2 = seq![e_p, e_f];
    assert(es2.skip(1) =~= seq![e_f]);
    assert(spec_run(v, es2) == spec_run(v, seq![e_f]));
    assert(spec_run(v, es2) == spec_step(v, e_f));
}

/// True unless the event hands the pipeline a malformed job name.
pub open spec fn named_ok(e: Event) -> bool {
    match e {
        Event::Named(s) => valid_job_name(s@),
        _ => true,
    }
}

/// Every recorded result is a well-formed job name, and so is the current
/// one while a job is underway.
pub open spec fn names_ok(v: PipelineView) -> bool {
    &&& forall|i: int| 0 <= i < v.results.len() ==> valid_job_name(#[trigger] v.results[i])
    &&& ((v.phase == Phase::Starting || v.phase == Phase::Polling || v.phase == Phase::Fetching
        || v.phase == Phase::Analyzing) ==> valid_job_name(v.job_name))
}

/// One step keeps every name well-formed, as long as generated names are.
pub proof fn lemma_step_names(v: PipelineView, e: Event)
    requires
        names_ok(v),
        named_ok(e),
    ensures
        names_ok(spec_step(v, e)),
{
}

/// A whole run keeps every name well-formed.
pub proof fn lemma_run_names(v: PipelineView, es: Seq<Event>)
    requires
        names_ok(v),
        forall|i: int| 0 <= i < es.len() ==> #[trigger] named_ok(es[i]),
    ensures
        names_ok(spec_run(v, es)),
    decreases es.len(),
{
    if es.len() > 0 {
        lemma_step_names(v, es[0]);
        assert forall|i: int| 0 <= i < es.skip(1).len() implies #[trigger] named_ok(
            es.skip(1)[i],
        ) by {
            assert(es.skip(1)[i] == es[i + 1]);
        }
        lemma_run_names(spec_step(v, es[0]), es.skip(1));
    }
}

/// A complete single-file batch responds with exactly one job name, ten
/// ASCII letters or digits — provided every name handed in by the generator
/// is (which [`crate::names::generate_random_job_name`] guarantees) — and
/// its JSON encoding is literally the one name between `["` and `"]`.
pub proof fn lemma_single_file_response(es: Seq<Event>)
    requires
        forall|i: int| 0 <= i < es.len() ==> #[trigger] named_ok(es[i]),
        spec_run(spec_init(1), es).phase == Phase::Done,
    ensures
        spec_run(spec_init(1), es).results.len() == 1,
        valid_job_name(spec_run(spec_init(1), es).results[0]),
        json_array_spec(spec_run(spec_init(1), es).results) == seq!['[', '"'] + spec_run(
            spec_init(1),
            es,
        ).results[0] + seq!['"', ']'],
{
    lemma_complete_batch_length(1, es);
    lemma_run_names(spec_init(1), es);
    let name = spec_run(spec_init(1), es).results[0];
    assert forall|j: int| 0 <= j < name.len() implies name[j] != '"' && name[j] != '\\' by {
        assert(is_alnum_char(name[j]));
        assert('"' as u32 == 34 && '\\' as u32 == 92);
    }
    lemma_quoted_plain(name);
    assert(spec_run(spec_init(1), es).results =~= seq![name]);
    assert(array_body(seq![name]) == quoted(name));
    assert(json_array_spec(seq![name]) =~= seq!['[', '"'] + name + seq!['"', ']']);
}

} // verus!
