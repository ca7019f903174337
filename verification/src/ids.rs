//! Identifiers, as plain integers.

use vstd::prelude::*;

verus! {

/// Durable identity of a participant.
pub type SpeakerId = u64;

/// Ephemeral tag of one audio source within a voice connection.
pub type StreamId = u32;

/// The scope (guild) that owns at most one session.
pub type GuildId = u64;

/// A text or voice channel.
pub type ChannelId = u64;

} // verus!
