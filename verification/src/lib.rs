//! Transcription of recorded speech through a remote provider.
//!
//! A short recording is uploaded whole. A long one arrives cut into chunks
//! that overlap a little; the chunks are uploaded a few at a time, and their
//! transcripts are merged in the order of the chunks, without the words that
//! two neighbours share.
//!
//! The library decides and computes; it does not touch the network, the
//! clipboard or the file system. An upload is described by a
//! [`ProviderRequest`] that the caller sends, and the answer comes back as an
//! [`HttpReply`].

pub mod adapter;
pub mod assemble;
pub mod cli;
pub mod clipboard;
pub mod config;
pub mod decimal;
pub mod dispatch;
pub mod error;
pub mod json;
pub mod merge;
pub mod order;
pub mod overlap;
pub mod provider;
pub mod settings;
pub mod text;

pub use adapter::{
    transcribe_audio, transcribe_chunk, AudioChunk, HttpReply, ProviderRequest,
};
pub use assemble::{assemble, AggregateError, ChunkOutcome};
pub use cli::{Cli, Commands};
pub use clipboard::{clipboard_route, session_type};
pub use config::{plan_config, ConfigAction, ConfigPlan, ConfigRequest};
pub use dispatch::{Admission, Completion, Dispatcher, Progress};
pub use error::TranscriptionError;
pub use merge::{merge_transcriptions, ChunkTranscription};
pub use overlap::remove_overlap;
pub use provider::TranscriptionProvider;
pub use settings::{mask_key, resolve_transcription_config, Settings, TranscriptionConfig};
