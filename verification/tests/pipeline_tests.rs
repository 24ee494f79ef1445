use audio_pipeline::pipeline::{init, step, Action, ErrorKind, Event, JobStatus, Pipeline};

fn expect_persist(a: &Action) -> (usize, String) {
    match a {
        Action::PersistFile { index, path } => (*index, path.clone()),
        _ => panic!("expected a persist action"),
    }
}

fn expect_upload(a: &Action) -> (String, String, String) {
    match a {
        Action::UploadObject { bucket, key, path } => (bucket.clone(), key.clone(), path.clone()),
        _ => panic!("expected an upload action"),
    }
}

fn expect_start(a: &Action) -> (String, String, String, String) {
    match a {
        Action::StartTranscription { media_uri, output_bucket, output_prefix, job_name } => (
            media_uri.clone(),
            output_bucket.clone(),
            output_prefix.clone(),
            job_name.clone(),
        ),
        _ => panic!("expected a start-transcription action"),
    }
}

fn expect_poll(a: &Action) -> String {
    match a {
        Action::PollStatus { job_name } => job_name.clone(),
        _ => panic!("expected a poll action"),
    }
}

fn expect_fetch(a: &Action) -> (String, String) {
    match a {
        Action::FetchTranscript { bucket, key } => (bucket.clone(), key.clone()),
        _ => panic!("expected a fetch action"),
    }
}

fn expect_analyze(a: &Action) -> String {
    match a {
        Action::Analyze { text } => text.clone(),
        _ => panic!("expected an analyze action"),
    }
}

fn expect_success(a: &Action) -> Vec<String> {
    match a {
        Action::Succeed { job_names } => job_names.clone(),
        _ => panic!("expected the success response"),
    }
}

fn expect_failure(a: &Action) -> (ErrorKind, String) {
    match a {
        Action::Fail { error } => (error.kind, error.message.clone()),
        _ => panic!("expected the failure response"),
    }
}

/// Wraps a transcript in the shape of the transcription service's output
/// document.
fn output_json(text: &str) -> String {
    format!(
        "{{\"jobName\":\"j\",\"results\":{{\"transcripts\":[{{\"transcript\":\"{}\"}}]}},\"status\":\"COMPLETED\"}}",
        text
    )
}

/// Drives one file through a fully successful pipeline, returning the state
/// afterwards together with the last action seen.
fn run_one_file(st: Pipeline, job_name: &str, transcript: &str) -> (Pipeline, Action) {
    let (st, a) = step(st, Event::Persisted);
    expect_upload(&a);
    let (st, a) = step(st, Event::Uploaded);
    assert!(matches!(a, Action::GenerateName));
    let (st, a) = step(st, Event::Named(job_name.to_string()));
    expect_start(&a);
    let (st, a) = step(st, Event::Started);
    expect_poll(&a);
    let (st, a) = step(st, Event::Polled(JobStatus::Completed));
    expect_fetch(&a);
    let (st, a) = step(st, Event::Fetched(output_json(transcript)));
    assert_eq!(expect_analyze(&a), transcript);
    step(st, Event::Analyzed)
}

#[test]
fn single_file_scenario() {
    // One file: every collaborator is called with the documented names, and
    // the response is the one job name.
    let (st, a) = init(1);
    let (index, path) = expect_persist(&a);
    assert_eq!(index, 0);
    assert_eq!(path, "/tmp/audio_0.wav");

    let (st, a) = step(st, Event::Persisted);
    let (bucket, key, path) = expect_upload(&a);
    assert_eq!(bucket, "audio-wav-rust");
    assert_eq!(key, "audio_0.wav");
    assert_eq!(path, "/tmp/audio_0.wav");

    let (st, a) = step(st, Event::Uploaded);
    assert!(matches!(a, Action::GenerateName));

    let (st, a) = step(st, Event::Named("abc123XYZ0".to_string()));
    let (media_uri, output_bucket, output_prefix, job_name) = expect_start(&a);
    assert_eq!(media_uri, "s3://audio-wav-rust/audio_0.wav");
    assert_eq!(output_bucket, "audio-wav-rust");
    assert_eq!(output_prefix, "my-output-files/");
    assert_eq!(job_name, "abc123XYZ0");

    let (st, a) = step(st, Event::Started);
    assert_eq!(expect_poll(&a), "abc123XYZ0");

    let (st, a) = step(st, Event::Polled(JobStatus::Completed));
    let (bucket, key) = expect_fetch(&a);
    assert_eq!(bucket, "audio-wav-rust");
    assert_eq!(key, "my-output-files/abc123XYZ0.json");

    let (st, a) = step(st, Event::Fetched(output_json("hello there")));
    assert_eq!(expect_analyze(&a), "hello there");

    let (_, a) = step(st, Event::Analyzed);
    assert_eq!(expect_success(&a), vec!["abc123XYZ0".to_string()]);
}

#[test]
fn batch_of_three_preserves_order() {
    let (st, a) = init(3);
    assert_eq!(expect_persist(&a).0, 0);
    let (st, a) = run_one_file(st, "name000001", "first");
    assert_eq!(expect_persist(&a).0, 1);
    let (st, a) = run_one_file(st, "name000002", "second");
    let (index, path) = expect_persist(&a);
    assert_eq!(index, 2);
    assert_eq!(path, "/tmp/audio_2.wav");
    let (_, a) = run_one_file(st, "name000003", "third");
    assert_eq!(
        expect_success(&a),
        vec![
            "name000001".to_string(),
            "name000002".to_string(),
            "name000003".to_string(),
        ]
    );
}

#[test]
fn second_key_is_indexed() {
    let (st, _) = init(2);
    let (st, a) = run_one_file(st, "name000001", "first");
    assert_eq!(expect_persist(&a).0, 1);
    let (_, a) = step(st, Event::Persisted);
    let (_, key, path) = expect_upload(&a);
    assert_eq!(key, "audio_1.wav");
    assert_eq!(path, "/tmp/audio_1.wav");
}

#[test]
fn empty_batch_succeeds_at_once() {
    let (_, a) = init(0);
    assert_eq!(expect_success(&a), Vec::<String>::new());
}

#[test]
fn failure_in_batch_aborts_everything() {
    // Two files; the second fails at the upload step: the whole batch turns
    // into a single failure, and no list of job names is ever produced.
    let (st, _) = init(2);
    let (st, a) = run_one_file(st, "name000001", "first");
    assert_eq!(expect_persist(&a).0, 1);
    let (st, a) = step(st, Event::Persisted);
    expect_upload(&a);
    let (st, a) = step(st, Event::UploadFailed("access denied".to_string()));
    let (kind, message) = expect_failure(&a);
    assert_eq!(kind, ErrorKind::Storage);
    assert_eq!(message, "access denied");
    // A failed batch stays failed, whatever comes in afterwards.
    let (_, a) = step(st, Event::Uploaded);
    let (kind, message) = expect_failure(&a);
    assert_eq!(kind, ErrorKind::Storage);
    assert_eq!(message, "access denied");
}

#[test]
fn polling_stops_on_completed() {
    // Status sequence [PENDING, PENDING, COMPLETED]: after COMPLETED the
    // next action is the fetch, not another poll.
    let (st, _) = init(1);
    let (st, _) = step(st, Event::Persisted);
    let (st, _) = step(st, Event::Uploaded);
    let (st, _) = step(st, Event::Named("abc123XYZ0".to_string()));
    let (st, a) = step(st, Event::Started);
    assert_eq!(expect_poll(&a), "abc123XYZ0");
    let (st, a) = step(st, Event::Polled(JobStatus::Pending));
    assert_eq!(expect_poll(&a), "abc123XYZ0");
    let (st, a) = step(st, Event::Polled(JobStatus::Pending));
    assert_eq!(expect_poll(&a), "abc123XYZ0");
    let (_, a) = step(st, Event::Polled(JobStatus::Completed));
    expect_fetch(&a);
}

#[test]
fn polling_stops_on_failed() {
    // Status sequence [PENDING, FAILED]: the batch fails and no further
    // poll is issued.
    let (st, _) = init(1);
    let (st, _) = step(st, Event::Persisted);
    let (st, _) = step(st, Event::Uploaded);
    let (st, _) = step(st, Event::Named("abc123XYZ0".to_string()));
    let (st, _) = step(st, Event::Started);
    let (st, a) = step(st, Event::Polled(JobStatus::Pending));
    expect_poll(&a);
    let (_, a) = step(st, Event::Polled(JobStatus::Failed));
    let (kind, message) = expect_failure(&a);
    assert_eq!(kind, ErrorKind::Transcription);
    assert_eq!(message, "transcription job failed");
}

#[test]
fn every_step_failure_has_its_kind() {
    let persist_failed = {
        let (st, _) = init(1);
        let (_, a) = step(st, Event::PersistFailed("disk full".to_string()));
        expect_failure(&a)
    };
    assert_eq!(persist_failed, (ErrorKind::Io, "disk full".to_string()));

    let start_failed = {
        let (st, _) = init(1);
        let (st, _) = step(st, Event::Persisted);
        let (st, _) = step(st, Event::Uploaded);
        let (st, _) = step(st, Event::Named("abc123XYZ0".to_string()));
        let (_, a) = step(st, Event::StartFailed("duplicate job name".to_string()));
        expect_failure(&a)
    };
    assert_eq!(start_failed, (ErrorKind::Transcription, "duplicate job name".to_string()));

    let poll_failed = {
        let (st, _) = init(1);
        let (st, _) = step(st, Event::Persisted);
        let (st, _) = step(st, Event::Uploaded);
        let (st, _) = step(st, Event::Named("abc123XYZ0".to_string()));
        let (st, _) = step(st, Event::Started);
        let (_, a) = step(st, Event::PollFailed("throttled".to_string()));
        expect_failure(&a)
    };
    assert_eq!(poll_failed, (ErrorKind::Transcription, "throttled".to_string()));

    let fetch_failed = {
        let (st, _) = init(1);
        let (st, _) = step(st, Event::Persisted);
        let (st, _) = step(st, Event::Uploaded);
        let (st, _) = step(st, Event::Named("abc123XYZ0".to_string()));
        let (st, _) = step(st, Event::Started);
        let (st, _) = step(st, Event::Polled(JobStatus::Completed));
        let (_, a) = step(st, Event::FetchFailed("no such key".to_string()));
        expect_failure(&a)
    };
    assert_eq!(fetch_failed, (ErrorKind::Storage, "no such key".to_string()));

    let analyze_failed = {
        let (st, _) = init(1);
        let (st, _) = step(st, Event::Persisted);
        let (st, _) = step(st, Event::Uploaded);
        let (st, _) = step(st, Event::Named("abc123XYZ0".to_string()));
        let (st, _) = step(st, Event::Started);
        let (st, _) = step(st, Event::Polled(JobStatus::Completed));
        let (st, _) = step(st, Event::Fetched(output_json("text")));
        let (_, a) = step(st, Event::AnalyzeFailed("text too long".to_string()));
        expect_failure(&a)
    };
    assert_eq!(analyze_failed, (ErrorKind::Analysis, "text too long".to_string()));
}

#[test]
fn malformed_output_is_a_format_error() {
    let (st, _) = init(1);
    let (st, _) = step(st, Event::Persisted);
    let (st, _) = step(st, Event::Uploaded);
    let (st, _) = step(st, Event::Named("abc123XYZ0".to_string()));
    let (st, _) = step(st, Event::Started);
    let (st, _) = step(st, Event::Polled(JobStatus::Completed));
    let (_, a) = step(st, Event::Fetched("{\"status\":\"COMPLETED\"}".to_string()));
    let (kind, message) = expect_failure(&a);
    assert_eq!(kind, ErrorKind::Format);
    assert_eq!(message, "malformed transcript output");
}

#[test]
fn mismatched_event_changes_nothing() {
    // An event that does not fit the pending step leaves the pipeline where
    // it was: the action is re-issued unchanged.
    let (st, _) = init(1);
    let (st, a) = step(st, Event::Uploaded);
    let (index, path) = expect_persist(&a);
    assert_eq!((index, path.as_str()), (0, "/tmp/audio_0.wav"));
    let (_, a) = step(st, Event::Persisted);
    expect_upload(&a);
}
