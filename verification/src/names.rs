//! The naming conventions of the pipeline: where an uploaded file is spooled
//! locally, under which key it is stored, where a job's transcript is
//! written, and how job names are generated.

use vstd::prelude::*;
use crate::text::{is_alnum_char, push_char, push_decimal, dec_rep};
use rand::Rng;

verus! {

/// The fixed bucket that holds every uploaded audio file and every
/// transcript.
pub const AUDIO_BUCKET: &'static str = "audio-wav-rust";

/// The prefix under which the transcription service writes its output.
pub const OUTPUT_PREFIX: &'static str = "my-output-files/";

/// The number of characters in a generated job name.
pub const JOB_NAME_LEN: usize = 10;

/// The object key of the audio file at position `i` of a batch.
pub open spec fn audio_key_spec(i: int) -> Seq<char> {
    "audio_"@ + dec_rep(i) + ".wav"@
}

/// The local path the file at position `i` is spooled to before upload.
pub open spec fn tmp_path_spec(i: int) -> Seq<char> {
    "/tmp/"@ + audio_key_spec(i)
}

/// The object key the transcript of job `job` is written under.
pub open spec fn transcript_key_spec(job: Seq<char>) -> Seq<char> {
    OUTPUT_PREFIX@ + job + ".json"@
}

/// A well-formed job name: exactly `JOB_NAME_LEN` ASCII letters and digits.
pub open spec fn valid_job_name(s: Seq<char>) -> bool {
    s.len() == JOB_NAME_LEN && forall|j: int| 0 <= j < s.len() ==> is_alnum_char(#[trigger] s[j])
}

/// The object key of the audio file at position `i` of a batch.
pub fn audio_key(i: usize) -> (r: String)
    ensures
        r@ == audio_key_spec(i as int),
{
    let mut s = String::from_str("audio_");
    push_decimal(&mut s, i as u64);
    let r = s.concat(".wav");
    proof {
        assert(r@ =~= audio_key_spec(i as int));
    }
    r
}

/// The local path the file at position `i` is spooled to.
pub fn tmp_audio_path(i: usize) -> (r: String)
    ensures
        r@ == tmp_path_spec(i as int),
{
    let mut s = String::from_str("/tmp/audio_");
    push_decimal(&mut s, i as u64);
    let r = s.concat(".wav");
    proof {
        reveal_strlit("/tmp/");
        reveal_strlit("/tmp/audio_");
        reveal_strlit("audio_");
        assert(r@ =~= tmp_path_spec(i as int));
    }
    r
}

/// The object key the transcript of `job` is written under.
pub fn transcript_key(job: &str) -> (r: String)
    ensures
        r@ == transcript_key_spec(job@),
{
    let r = String::from_str(OUTPUT_PREFIX).concat(job).concat(".json");
    proof {
        assert(r@ =~= transcript_key_spec(job@));
    }
    r
}

/// One random character for a job name.
/// Relies on rand's `Alphanumeric` distribution: sampling it yields a
/// uniformly random byte out of the ASCII set {A-Z, a-z, 0-9}.
#[verifier::external_body]
fn sample_alphanumeric() -> (c: char)
    ensures
        is_alnum_char(c),
{
    let b: u8 = rand::thread_rng().sample(rand::distributions::Alphanumeric);
    b as char
}

/// Generates a random job name: `JOB_NAME_LEN` characters, each an ASCII
/// letter or digit.  Distinctness of successive names is probabilistic and
/// is not stated here.
pub fn generate_random_job_name() -> (r: String)
    ensures
        valid_job_name(r@),
{
    let mut s = String::new();
    let mut i: usize = 0;
    while i < JOB_NAME_LEN
        invariant
            i <= JOB_NAME_LEN,
            s@.len() == i,
            forall|j: int| 0 <= j < i ==> is_alnum_char(#[trigger] s@[j]),
        decreases JOB_NAME_LEN - i,
    {
        let c = sample_alphanumeric();
        push_char(&mut s, c);
        i += 1;
    }
    s
}

} // verus!
