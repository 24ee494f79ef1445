use audio_pipeline::uri::{format_s3_uri, parse_s3_uri, UriError};

#[test]
fn parses_scheme_form() {
    let r = parse_s3_uri("s3://audio-wav-rust/audio_0.wav").unwrap();
    assert_eq!(r.0, "audio-wav-rust");
    assert_eq!(r.1, "audio_0.wav");
}

#[test]
fn parses_https_form() {
    let r = parse_s3_uri("https://s3.us-east-1.amazonaws.com/audio-wav-rust/audio_0.wav").unwrap();
    assert_eq!(r.0, "audio-wav-rust");
    assert_eq!(r.1, "audio_0.wav");
}

#[test]
fn both_forms_agree() {
    let a = parse_s3_uri("s3://bkt/dir/file.json").unwrap();
    let b = parse_s3_uri("https://s3.us-east-1.amazonaws.com/bkt/dir/file.json").unwrap();
    assert_eq!(a, b);
}

#[test]
fn key_keeps_inner_slashes() {
    let r = parse_s3_uri("s3://b/a/b/c").unwrap();
    assert_eq!(r.0, "b");
    assert_eq!(r.1, "a/b/c");
}

#[test]
fn rejects_uri_without_separator() {
    assert_eq!(parse_s3_uri("s3://bucketonly"), Err(UriError::MissingSeparator));
    assert_eq!(parse_s3_uri(""), Err(UriError::MissingSeparator));
    assert_eq!(parse_s3_uri("s3://"), Err(UriError::MissingSeparator));
}

#[test]
fn strips_repeated_prefixes() {
    // Leading occurrences of a prefix are stripped repeatedly before the
    // split, so a doubled scheme still parses.
    let r = parse_s3_uri("s3://s3://b/k").unwrap();
    assert_eq!(r.0, "b");
    assert_eq!(r.1, "k");
}

#[test]
fn empty_bucket_parses() {
    let r = parse_s3_uri("s3:///k").unwrap();
    assert_eq!(r.0, "");
    assert_eq!(r.1, "k");
}

#[test]
fn round_trips_through_format() {
    let uri = format_s3_uri("audio-wav-rust", "audio_7.wav");
    assert_eq!(uri, "s3://audio-wav-rust/audio_7.wav");
    let r = parse_s3_uri(&uri).unwrap();
    assert_eq!(r.0, "audio-wav-rust");
    assert_eq!(r.1, "audio_7.wav");
}

#[test]
fn round_trips_unusual_names() {
    let uri = format_s3_uri("my.bucket-1", "a b/c?d=e");
    let r = parse_s3_uri(&uri).unwrap();
    assert_eq!(r.0, "my.bucket-1");
    assert_eq!(r.1, "a b/c?d=e");
}
