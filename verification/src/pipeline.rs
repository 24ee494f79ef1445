//! The upload orchestration pipeline, as a verified state machine.
//!
//! Each uploaded file of a batch runs through the same sequence of steps:
//! spool it to a local path, upload it to the object store, generate a job
//! name, start a transcription job, poll the job until it reaches a terminal
//! state, fetch the transcript, and run sentiment analysis on it.  Any
//! failure aborts the whole batch at once; a batch that runs to the end
//! yields the list of job names, one per file, in upload order.
//!
//! The machine itself performs no network call.  [`init`] and [`step`] take
//! the batch size and the outcome of the last step, and return the new state
//! together with the next [`Action`]; an unverified shell performs the
//! actions and feeds the outcomes back in as [`Event`]s.

use vstd::prelude::*;
use crate::names::{
    AUDIO_BUCKET, OUTPUT_PREFIX, audio_key, audio_key_spec, tmp_audio_path, tmp_path_spec,
    transcript_key, transcript_key_spec,
};
use crate::text::clone_string;
use crate::transcript::{extract_spec, extract_transcript};
use crate::uri::{format_s3_uri, s3_uri_of};

verus! {

/// The status a poll of the transcription job reports.
#[derive(Clone, Copy, Debug, PartialEq, Eq, Structural)]
pub enum JobStatus {
    Pending,
    Completed,
    Failed,
}

/// Which collaborator a failure came from.  `Format` is the kind for
/// malformed input (an object-store URI without a separator, transcript
/// output that cannot be read); the shell maps such parse failures to it.
#[derive(Clone, Copy, Debug, PartialEq, Eq, Structural)]
pub enum ErrorKind {
    Io,
    Storage,
    Transcription,
    Analysis,
    Format,
}

/// The single error a failed batch reports: the step that failed and the
/// underlying cause.
#[derive(Debug)]
pub struct PipelineError {
    pub kind: ErrorKind,
    pub message: String,
}

/// The mathematical value of a [`PipelineError`].
pub struct ErrorView {
    pub kind: ErrorKind,
    pub message: Seq<char>,
}

impl View for PipelineError {
    type V = ErrorView;

    open spec fn view(&self) -> ErrorView {
        ErrorView { kind: self.kind, message: self.message@ }
    }
}

/// The step the pipeline is waiting on for the current file, or a terminal
/// batch state.
#[derive(Clone, Copy, Debug, PartialEq, Eq, Structural)]
pub enum Phase {
    Persisting,
    Uploading,
    Naming,
    Starting,
    Polling,
    Fetching,
    Analyzing,
    Done,
    Failed,
}

/// The outcome of the last action, handed back by the shell.  Each failure
/// carries the underlying cause's message.
#[derive(Debug)]
pub enum Event {
    Persisted,
    PersistFailed(String),
    Uploaded,
    UploadFailed(String),
    /// The generated job name.
    Named(String),
    Started,
    StartFailed(String),
    /// The status one poll reported.
    Polled(JobStatus),
    PollFailed(String),
    /// The raw output document the fetch returned; the transcript text is
    /// extracted from it here, in the pipeline.
    Fetched(String),
    FetchFailed(String),
    Analyzed,
    AnalyzeFailed(String),
}

/// What the shell is to do next.
#[derive(Debug)]
pub enum Action {
    /// Spool the uploaded file at `index` to `path`.
    PersistFile { index: usize, path: String },
    /// Upload the spooled file to the object store.
    UploadObject { bucket: String, key: String, path: String },
    /// Generate a fresh random job name and hand it back as [`Event::Named`].
    GenerateName,
    /// Start the transcription job.
    StartTranscription {
        media_uri: String,
        output_bucket: String,
        output_prefix: String,
        job_name: String,
    },
    /// Poll the transcription job's status once.
    PollStatus { job_name: String },
    /// Fetch the transcript text written for the job.
    FetchTranscript { bucket: String, key: String },
    /// Run sentiment analysis on the transcript.
    Analyze { text: String },
    /// Respond with the job names, one per file, in upload order.
    Succeed { job_names: Vec<String> },
    /// Respond with a single error for the whole batch.
    Fail { error: PipelineError },
}

/// The pipeline state for one batch.
pub struct Pipeline {
    pub total: usize,
    pub index: usize,
    pub job_name: String,
    pub transcript: String,
    pub error: Option<PipelineError>,
    pub results: Vec<String>,
    pub phase: Phase,
}

/// The mathematical value of a [`Pipeline`].
#[verifier::ext_equal]
pub struct PipelineView {
    pub total: int,
    pub index: int,
    pub job_name: Seq<char>,
    pub transcript: Seq<char>,
    pub error: Option<ErrorView>,
    pub results: Seq<Seq<char>>,
    pub phase: Phase,
}

impl View for Pipeline {
    type V = PipelineView;

    open spec fn view(&self) -> PipelineView {
        PipelineView {
            total: self.total as int,
            index: self.index as int,
            job_name: self.job_name@,
            transcript: self.transcript@,
            error: match self.error {
                Option::None => Option::<ErrorView>::None,
                Option::Some(e) => Some(e@),
            },
            results: self.results.deep_view(),
            phase: self.phase,
        }
    }
}

/// The machine's invariant: the index never passes the batch size, one
/// result is recorded per finished file, a finished batch has one result per
/// file, and an error is recorded exactly in the failed state.
pub open spec fn wf(v: PipelineView) -> bool {
    &&& 0 <= v.index <= v.total
    &&& match v.phase {
        Phase::Done => v.index == v.total && v.results.len() == v.total && v.error is None,
        Phase::Failed => v.error is Some,
        _ => v.index < v.total && v.results.len() == v.index && v.error is None,
    }
}

/// The state a batch of `total` files starts in: at the first file, with no
/// results yet; an empty batch is complete at once.
pub open spec fn spec_init(total: int) -> PipelineView {
    PipelineView {
        total,
        index: 0,
        job_name: Seq::<char>::empty(),
        transcript: Seq::<char>::empty(),
        error: None,
        results: Seq::<Seq<char>>::empty(),
        phase: if total == 0 {
            Phase::Done
        } else {
            Phase::Persisting
        },
    }
}

/// `v`, failed with the given cause.
pub open spec fn failed_with(v: PipelineView, kind: ErrorKind, message: Seq<char>) -> PipelineView {
    PipelineView {
        phase: Phase::Failed,
        error: Some(ErrorView { kind, message }),
        ..v
    }
}

/// The transition relation of the pipeline, one event at a time.  An event
/// that does not fit the current phase changes nothing; the two terminal
/// phases absorb every event.
pub open spec fn spec_step(v: PipelineView, e: Event) -> PipelineView {
    match (v.phase, e) {
        (Phase::Persisting, Event::Persisted) => PipelineView { phase: Phase::Uploading, ..v },
        (Phase::Persisting, Event::PersistFailed(m)) => failed_with(v, ErrorKind::Io, m@),
        (Phase::Uploading, Event::Uploaded) => PipelineView { phase: Phase::Naming, ..v },
        (Phase::Uploading, Event::UploadFailed(m)) => failed_with(v, ErrorKind::Storage, m@),
        (Phase::Naming, Event::Named(name)) => PipelineView {
            job_name: name@,
            phase: Phase::Starting,
            ..v
        },
        (Phase::Starting, Event::Started) => PipelineView { phase: Phase::Polling, ..v },
        (Phase::Starting, Event::StartFailed(m)) => failed_with(v, ErrorKind::Transcription, m@),
        (Phase::Polling, Event::Polled(JobStatus::Pending)) => v,
        (Phase::Polling, Event::Polled(JobStatus::Completed)) => PipelineView {
            phase: Phase::Fetching,
            ..v
        },
        (Phase::Polling, Event::Polled(JobStatus::Failed)) => failed_with(
            v,
            ErrorKind::Transcription,
            "transcription job failed"@,
        ),
        (Phase::Polling, Event::PollFailed(m)) => failed_with(v, ErrorKind::Transcription, m@),
        (Phase::Fetching, Event::Fetched(raw)) => match extract_spec(raw@) {
            Option::Some(t) => PipelineView { transcript: t, phase: Phase::Analyzing, ..v },
            Option::None => failed_with(v, ErrorKind::Format, "malformed transcript output"@),
        },
        (Phase::Fetching, Event::FetchFailed(m)) => failed_with(v, ErrorKind::Storage, m@),
        (Phase::Analyzing, Event::Analyzed) => PipelineView {
            index: v.index + 1,
            results: v.results.push(v.job_name),
            phase: if v.index + 1 == v.total {
                Phase::Done
            } else {
                Phase::Persisting
            },
            ..v
        },
        (Phase::Analyzing, Event::AnalyzeFailed(m)) => failed_with(v, ErrorKind::Analysis, m@),
        _ => v,
    }
}

/// The action that belongs to a state: what the shell is to do while the
/// pipeline stands in `v`.
pub open spec fn action_for(v: PipelineView, a: Action) -> bool {
    match v.phase {
        Phase::Persisting => match a {
            Action::PersistFile { index, path } => {
                index as int == v.index && path@ == tmp_path_spec(v.index)
            },
            _ => false,
        },
        Phase::Uploading => match a {
            Action::UploadObject { bucket, key, path } => {
                &&& bucket@ == AUDIO_BUCKET@
                &&& key@ == audio_key_spec(v.index)
                &&& path@ == tmp_path_spec(v.index)
            },
            _ => false,
        },
        Phase::Naming => a matches Action::GenerateName,
        Phase::Starting => match a {
            Action::StartTranscription { media_uri, output_bucket, output_prefix, job_name } => {
                &&& media_uri@ == s3_uri_of(AUDIO_BUCKET@, audio_key_spec(v.index))
                &&& output_bucket@ == AUDIO_BUCKET@
                &&& output_prefix@ == OUTPUT_PREFIX@
                &&& job_name@ == v.job_name
            },
            _ => false,
        },
        Phase::Polling => match a {
            Action::PollStatus { job_name } => job_name@ == v.job_name,
            _ => false,
        },
        Phase::Fetching => match a {
            Action::FetchTranscript { bucket, key } => {
                &&& bucket@ == AUDIO_BUCKET@
                &&& key@ == transcript_key_spec(v.job_name)
            },
            _ => false,
        },
        Phase::Analyzing => match a {
            Action::Analyze { text } => text@ == v.transcript,
            _ => false,
        },
        Phase::Done => match a {
            Action::Succeed { job_names } => job_names.deep_view() == v.results,
            _ => false,
        },
        Phase::Failed => match (v.error, a) {
            (Option::Some(ev), Action::Fail { error }) => error@ == ev,
            _ => false,
        },
    }
}

/// Copies a list of job names.
fn clone_names(v: &Vec<String>) -> (r: Vec<String>)
    ensures
        r.deep_view() == v.deep_view(),
{
    let mut r: Vec<String> = Vec::new();
    let mut i: usize = 0;
    while i < v.len()
        invariant
            i <= v.len(),
            r@.len() == i,
            forall|j: int| 0 <= j < i ==> #[trigger] r@[j]@ == v@[j]@,
        decreases v.len() - i,
    {
        r.push(clone_string(&v[i]));
        i += 1;
    }
    proof {
        assert forall|j: int| 0 <= j < v@.len() implies r.deep_view()[j] == v.deep_view()[j] by {
            assert(r@[j]@ == v@[j]@);
        }
        assert(r.deep_view() =~= v.deep_view());
    }
    r
}

/// The action for the state the pipeline stands in.
pub fn action_of(state: &Pipeline) -> (a: Action)
    requires
        wf(state@),
    ensures
        action_for(state@, a),
{
    match state.phase {
        Phase::Persisting => Action::PersistFile {
            index: state.index,
            path: tmp_audio_path(state.index),
        },
        Phase::Uploading => Action::UploadObject {
            bucket: String::from_str(AUDIO_BUCKET),
            key: audio_key(state.index),
            path: tmp_audio_path(state.index),
        },
        Phase::Naming => Action::GenerateName,
        Phase::Starting => {
            let key = audio_key(state.index);
            Action::StartTranscription {
                media_uri: format_s3_uri(AUDIO_BUCKET, key.as_str()),
                output_bucket: String::from_str(AUDIO_BUCKET),
                output_prefix: String::from_str(OUTPUT_PREFIX),
                job_name: clone_string(&state.job_name),
            }
        },
        Phase::Polling => Action::PollStatus { job_name: clone_string(&state.job_name) },
        Phase::Fetching => Action::FetchTranscript {
            bucket: String::from_str(AUDIO_BUCKET),
            key: transcript_key(state.job_name.as_str()),
        },
        Phase::Analyzing => Action::Analyze { text: clone_string(&state.transcript) },
        Phase::Done => Action::Succeed { job_names: clone_names(&state.results) },
        Phase::Failed => match &state.error {
            Option::Some(e) => Action::Fail {
                error: PipelineError { kind: e.kind, message: clone_string(&e.message) },
            },
            Option::None => vstd::pervasive::unreached(),
        },
    }
}

/// Starts a batch of `total` files: the initial state and the first action.
pub fn init(total: usize) -> (r: (Pipeline, Action))
    ensures
        r.0@ == spec_init(total as int),
        wf(r.0@),
        action_for(r.0@, r.1),
{
    let st = Pipeline {
        total,
        index: 0,
        job_name: String::new(),
        transcript: String::new(),
        error: None,
        results: Vec::new(),
        phase: if total == 0 {
            Phase::Done
        } else {
            Phase::Persisting
        },
    };
    proof {
        assert(st.results.deep_view() =~= Seq::<Seq<char>>::empty());
        assert(st@ =~= spec_init(total as int));
    }
    let a = action_of(&st);
    (st, a)
}

/// Feeds one event into the pipeline: the new state is exactly
/// [`spec_step`] of the old one, the invariant is preserved, and the
/// returned action is the one that belongs to the new state.
pub fn step(state: Pipeline, event: Event) -> (r: (Pipeline, Action))
    requires
        wf(state@),
    ensures
        r.0@ == spec_step(state@, event),
        wf(r.0@),
        action_for(r.0@, r.1),
{
    let mut st = state;
    match event {
        Event::Persisted => {
            if st.phase == Phase::Persisting {
                st.phase = Phase::Uploading;
            }
        },
        Event::PersistFailed(m) => {
            if st.phase == Phase::Persisting {
                st.error = Some(PipelineError { kind: ErrorKind::Io, message: m });
                st.phase = Phase::Failed;
            }
        },
        Event::Uploaded => {
            if st.phase == Phase::Uploading {
                st.phase = Phase::Naming;
            }
        },
        Event::UploadFailed(m) => {
            if st.phase == Phase::Uploading {
                st.error = Some(PipelineError { kind: ErrorKind::Storage, message: m });
                st.phase = Phase::Failed;
            }
        },
        Event::Named(name) => {
            if st.phase == Phase::Naming {
                st.job_name = name;
                st.phase = Phase::Starting;
            }
        },
        Event::Started => {
            if st.phase == Phase::Starting {
                st.phase = Phase::Polling;
            }
        },
        Event::StartFailed(m) => {
            if st.phase == Phase::Starting {
                st.error = Some(PipelineError { kind: ErrorKind::Transcription, message: m });
                st.phase = Phase::Failed;
            }
        },
        Event::Polled(status) => {
            if st.phase == Phase::Polling {
                match status {
                    JobStatus::Pending => {},
                    JobStatus::Completed => {
                        st.phase = Phase::Fetching;
                    },
                    JobStatus::Failed => {
                        st.error = Some(
                            PipelineError {
                                kind: ErrorKind::Transcription,
                                message: String::from_str("transcription job failed"),
                            },
                        );
                        st.phase = Phase::Failed;
                    },
                }
            }
        },
        Event::PollFailed(m) => {
            if st.phase == Phase::Polling {
                st.error = Some(PipelineError { kind: ErrorKind::Transcription, message: m });
                st.phase = Phase::Failed;
            }
        },
        Event::Fetched(raw) => {
            if st.phase == Phase::Fetching {
                match extract_transcript(raw.as_str()) {
                    Option::Some(t) => {
                        st.transcript = t;
                        st.phase = Phase::Analyzing;
                    },
                    Option::None => {
                        st.error = Some(
                            PipelineError {
                                kind: ErrorKind::Format,
                                message: String::from_str("malformed transcript output"),
                            },
                        );
                        st.phase = Phase::Failed;
                    },
                }
            }
        },
        Event::FetchFailed(m) => {
            if st.phase == Phase::Fetching {
                st.error = Some(PipelineError { kind: ErrorKind::Storage, message: m });
                st.phase = Phase::Failed;
            }
        },
        Event::Analyzed => {
            if st.phase == Phase::Analyzing {
                let ghost before = st.results.deep_view();
                let name = clone_string(&st.job_name);
                st.results.push(name);
                st.index = st.index + 1;
                if st.index == st.total {
                    st.phase = Phase::Done;
                } else {
                    st.phase = Phase::Persisting;
                }
                proof {
                    assert(st.results.deep_view() =~= before.push(state@.job_name));
                }
            }
        },
        Event::AnalyzeFailed(m) => {
            if st.phase == Phase::Analyzing {
                st.error = Some(PipelineError { kind: ErrorKind::Analysis, message: m });
                st.phase = Phase::Failed;
            }
        },
    }
    proof {
        assert(st@ =~= spec_step(state@, event));
    }
    let a = action_of(&st);
    (st, a)
}

} // verus!
