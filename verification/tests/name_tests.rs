use audio_pipeline::names::{audio_key, generate_random_job_name, tmp_audio_path, transcript_key};
use audio_pipeline::text::u64_to_decimal;
use std::collections::HashSet;

#[test]
fn decimal_rendering_exact() {
    assert_eq!(u64_to_decimal(0), "0");
    assert_eq!(u64_to_decimal(7), "7");
    assert_eq!(u64_to_decimal(10), "10");
    assert_eq!(u64_to_decimal(12345), "12345");
    assert_eq!(u64_to_decimal(u64::MAX), "18446744073709551615");
}

#[test]
fn audio_key_exact() {
    assert_eq!(audio_key(0), "audio_0.wav");
    assert_eq!(audio_key(1), "audio_1.wav");
    assert_eq!(audio_key(12), "audio_12.wav");
}

#[test]
fn tmp_path_exact() {
    assert_eq!(tmp_audio_path(0), "/tmp/audio_0.wav");
    assert_eq!(tmp_audio_path(42), "/tmp/audio_42.wav");
}

#[test]
fn transcript_key_exact() {
    assert_eq!(transcript_key("abc123XYZ0"), "my-output-files/abc123XYZ0.json");
}

#[test]
fn job_names_are_ten_alphanumerics_and_distinct() {
    let mut seen: HashSet<String> = HashSet::new();
    for _ in 0..1000 {
        let name = generate_random_job_name();
        assert_eq!(name.len(), 10);
        assert!(name.chars().all(|c| c.is_ascii_alphanumeric()));
        assert!(seen.insert(name), "job name generator repeated a name");
    }
    assert_eq!(seen.len(), 1000);
}
