//! Mapping from ephemeral stream identifiers to durable speakers.

use vstd::prelude::*;
use std::collections::HashMap;
use crate::ids::{SpeakerId, StreamId};

verus! {

/// Last-write-wins table from stream to speaker. A mapping never expires:
/// only a later attribution of the same stream replaces it.
pub struct SpeakerAttributor {
    pub map: HashMap<StreamId, SpeakerId>,
}

impl View for SpeakerAttributor {
    type V = Map<StreamId, SpeakerId>;

    open spec fn view(&self) -> Map<StreamId, SpeakerId> {
        self.map@
    }
}

impl SpeakerAttributor {
    /// A table that knows no stream.
    pub fn new() -> (a: Self)
        ensures
            a@ == Map::<StreamId, SpeakerId>::empty(),
    {
        SpeakerAttributor { map: HashMap::new() }
    }

    /// Attributes `stream` to `speaker`, replacing any earlier attribution.
    pub fn attribute(&mut self, stream: StreamId, speaker: SpeakerId)
        ensures
            final(self)@ == old(self)@.insert(stream, speaker),
    {
        broadcast use vstd::std_specs::hash::group_hash_axioms;

        self.map.insert(stream, speaker);
    }

    /// The speaker that `stream` was last attributed to, if any.
    pub fn lookup(&self, stream: StreamId) -> (r: Option<SpeakerId>)
        ensures
            r == (if self@.contains_key(stream) {
                Some(self@[stream])
            } else {
                None
            }),
    {
        broadcast use vstd::std_specs::hash::group_hash_axioms;

        match self.map.get(&stream) {
            Some(speaker) => Some(*speaker),
            None => None,
        }
    }

    /// Number of streams that have an attribution.
    pub fn len(&self) -> (n: usize)
        ensures
            n == self@.len(),
    {
        broadcast use vstd::std_specs::hash::group_hash_axioms;

        self.map.len()
    }
}

/// Attribution is last-write-wins: after `stream` was attributed to `first`
/// and then to `second`, it maps to `second`, and no other stream changed.
pub proof fn lemma_last_attribution_wins(
    m: Map<StreamId, SpeakerId>,
    stream: StreamId,
    first: SpeakerId,
    second: SpeakerId,
)
    ensures
        m.insert(stream, first).insert(stream, second)[stream] == second,
        m.insert(stream, first).insert(stream, second).contains_key(stream),
        m.insert(stream, first).insert(stream, second) == m.insert(stream, second),
{
    assert(m.insert(stream, first).insert(stream, second) =~= m.insert(stream, second));
}

} // verus!
