//! Multi-speaker voice capture and live translation: sessions, speaker
//! attribution, utterance segmentation and the decisions of the
//! per-utterance processing pipeline.
//!
//! Time never comes from a clock in this crate: every operation that
//! depends on it takes the current instant, in milliseconds, as an argument.

pub mod attribution;
pub mod audio;
pub mod buffer;
pub mod commands;
pub mod events;
pub mod ids;
pub mod maps;
pub mod minutes;
pub mod paths;
pub mod pipeline;
pub mod reactions;
pub mod recording;
pub mod registry;
pub mod speech;
pub mod summarizer;
pub mod text;
pub mod translation;
pub mod translator;
pub mod user_settings;
pub mod wav;
