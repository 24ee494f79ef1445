//! A verified core for an audio-processing backend: audio files are stored in
//! an object store, transcribed by a managed transcription service, and the
//! transcript is run through sentiment analysis.  The orchestration of those
//! steps, the naming conventions for objects and jobs, and the parsing of
//! object-store URIs are verified here; the network calls themselves are made
//! by a thin unverified shell that drives the verified state machine.

pub mod laws;
pub mod names;
pub mod pipeline;
pub mod response;
pub mod text;
pub mod transcript;
pub mod uri;
