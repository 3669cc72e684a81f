//! Live-caption audio pipeline: capture normalization, sample-rate
//! conversion, backlog control, two-source mixing, speech-to-text event
//! relay, and the session/caption bookkeeping around them.

pub mod ai;
pub mod captions;
pub mod devices;
pub mod mixer;
pub mod pcm;
pub mod resample;
pub mod settings;
pub mod stream;
pub mod stt;
pub mod text;
