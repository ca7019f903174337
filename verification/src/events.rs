//! What the voice transport reports, as plain values.

use vstd::prelude::*;
use crate::ids::{SpeakerId, StreamId};

verus! {

/// One stream's share of an audio tick: decoded samples, or `None` where
/// the tick carries no audio for the stream.
#[derive(Debug)]
pub struct TickEntry {
    pub ssrc: StreamId,
    pub decoded_voice: Option<Vec<i16>>,
}

/// Mathematical value of a [`TickEntry`].
pub struct TickEntryView {
    pub ssrc: StreamId,
    pub audio: Option<Seq<i16>>,
}

impl View for TickEntry {
    type V = TickEntryView;

    open spec fn view(&self) -> TickEntryView {
        TickEntryView {
            ssrc: self.ssrc,
            audio: match self.decoded_voice {
                Some(samples) => Some(samples@),
                None => None,
            },
        }
    }
}

/// The entries of `v`, each by its value.
pub open spec fn tick_views(v: Seq<TickEntry>) -> Seq<TickEntryView> {
    Seq::new(v.len(), |i: int| v[i]@)
}

/// An event of the voice transport.
#[derive(Debug)]
#[allow(inconsistent_fields)]
pub enum VoiceEvent {
    /// A stream was attributed to a speaker, or announced without one.
    SpeakingStateUpdate { ssrc: StreamId, user_id: Option<SpeakerId> },
    /// A periodic tick with the audio of every active stream, in the order
    /// in which the entries are to be processed.
    VoiceTick { speaking: Vec<TickEntry> },
    /// A participant left.
    ClientDisconnect { user_id: SpeakerId },
    /// Anything else; it changes nothing.
    Other,
}

} // verus!
