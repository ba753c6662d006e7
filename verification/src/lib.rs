//! Core engine of a resumable video-dubbing pipeline.
//!
//! The library holds the verified logic: the job and stage state machines,
//! the per-provider rate/concurrency scheduler, the translation batch
//! retry-and-split protocol, the per-item TTS resume protocol, the audio
//! alignment planner, and the subtitle codecs. Network, database and
//! media-tool execution live outside; they exchange plain values with the
//! functions here.

pub mod aligner;
pub mod bucket;
pub mod chars;
pub mod errors;
pub mod jsontext;
pub mod media;
pub mod num;
pub mod pool;
pub mod preprocess;
pub mod protocol;
pub mod registry;
pub mod segment;
pub mod store;
pub mod subtitle;
pub mod translate;
pub mod tts;
pub mod ttsexec;
pub mod validate;
