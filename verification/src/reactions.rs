//! Recording controlled by a reaction on a control message: the state of
//! each control and what adding or removing the reaction leads to.

use vstd::prelude::*;
use crate::ids::{ChannelId, GuildId, SpeakerId};
use crate::text::str_eq;

verus! {

/// The emoji that controls recording.
pub const RECORD_EMOJI: &'static str = "🔴";

pub const CONTROL_MESSAGE: &'static str =
    "🔴 **Recording Control**\n\nPress 🔴 to start recording\nPress 🔴 again to stop and generate meeting minutes";

pub const CONTROL_CREATED: &'static str =
    "✅ **Recording control message created!**\n\nClick the 🔴 reaction above to start/stop recording.";

pub const REACTION_STARTED: &'static str = "🔴 **Recording started!**";

pub const REACTION_NOT_IN_VOICE: &'static str =
    "❌ You must be in a voice channel to start recording!";

pub const REACTION_NO_AUDIO: &'static str = "❌ No audio data recorded";

pub const REACTION_NO_TRANSCRIPT: &'static str =
    "⚠️ **No audio detected** or transcription failed. Meeting minutes cannot be generated.";

/// What identifies a control: the control message, its channel and guild,
/// and the user who asked for it.
#[derive(Debug, Clone, Copy, PartialEq, Eq, Structural)]
pub struct ControlKey {
    pub message_id: u64,
    pub channel_id: ChannelId,
    pub guild_id: GuildId,
    pub user_id: SpeakerId,
}

/// The controls that were registered, each with whether its recording
/// runs. A control is found by its whole key, all four parts; the entries
/// are kept in the order of their registration, each key once.
pub struct ReactionControls {
    entries: Vec<(ControlKey, bool)>,
}

impl ReactionControls {
    /// No key occurs twice.
    pub closed spec fn wf(&self) -> bool {
        forall|i: int, j: int|
            0 <= i < j < self.entries@.len() ==> (#[trigger] self.entries@[i]).0 != (
            #[trigger] self.entries@[j]).0
    }

    spec fn position(&self, key: ControlKey) -> int {
        choose|i: int| 0 <= i < self.entries@.len() && self.entries@[i].0 == key
    }

    /// Whether `key` is registered.
    pub closed spec fn knows(&self, key: ControlKey) -> bool {
        exists|i: int| 0 <= i < self.entries@.len() && self.entries@[i].0 == key
    }

    /// Whether the recording of `key` runs.
    pub closed spec fn running(&self, key: ControlKey) -> bool {
        self.entries@[self.position(key)].1
    }

    /// The state of `key`: `None` where it is not registered.
    pub open spec fn state(&self, key: ControlKey) -> Option<bool> {
        if self.knows(key) {
            Some(self.running(key))
        } else {
            None
        }
    }

    /// No control is registered.
    pub fn new() -> (c: Self)
        ensures
            c.wf(),
            forall|key: ControlKey| c.state(key) is None,
    {
        ReactionControls { entries: Vec::new() }
    }

    fn find(&self, key: ControlKey) -> (r: Option<usize>)
        requires
            self.wf(),
        ensures
            match r {
                Some(i) => self.knows(key) && i < self.entries@.len() && self.entries@[i as int].0
                    == key && self.position(key) == i,
                None => !self.knows(key),
            },
    {
        let mut i: usize = 0;
        while i < self.entries.len()
            invariant
                0 <= i <= self.entries@.len(),
                self.wf(),
                forall|k: int| 0 <= k < i ==> self.entries@[k].0 != key,
            decreases self.entries@.len() - i,
        {
            if self.entries[i].0 == key {
                proof {
                    assert(self.entries@[i as int].0 == key);
                    assert(self.knows(key));
                    let p = self.position(key);
                    assert(self.entries@[p].0 == key);
                    if p < i {
                        assert(self.entries@[p].0 != self.entries@[i as int].0);
                    } else if p > i {
                        assert(self.entries@[i as int].0 != self.entries@[p].0);
                    }
                }
                return Some(i);
            }
            i = i + 1;
        }
        None
    }

    /// The state of `key`.
    pub fn get(&self, key: ControlKey) -> (r: Option<bool>)
        requires
            self.wf(),
        ensures
            r == self.state(key),
    {
        match self.find(key) {
            Some(i) => Some(self.entries[i].1),
            None => None,
        }
    }

    /// Sets the state of `key` to `running`, registering the key where it
    /// is new. No other key changes.
    pub fn set(&mut self, key: ControlKey, running: bool)
        requires
            old(self).wf(),
        ensures
            final(self).wf(),
            final(self).state(key) == Some(running),
            forall|other: ControlKey| other != key ==> final(self).state(other) == old(self).state(
                other,
            ),
    {
        let found = self.find(key);
        match found {
            Some(i) => {
                self.entries.set(i, (key, running));
                proof {
                    assert(self.entries@[i as int].0 == key);
                    assert(self.knows(key));
                    assert forall|other: ControlKey| other != key implies self.state(other) == old(
                        self,
                    ).state(other) by {
                        if old(self).knows(other) {
                            let p = old(self).position(other);
                            assert(self.entries@[p].0 == other);
                            assert(self.knows(other));
                            let q = self.position(other);
                            assert(old(self).entries@[q].0 == other);
                        } else if self.knows(other) {
                            let q = self.position(other);
                            assert(old(self).entries@[q].0 == other);
                        }
                    }
                }
            },
            None => {
                self.entries.push((key, running));
                proof {
                    let n = old(self).entries@.len() as int;
                    assert(self.entries@[n].0 == key);
                    assert(self.knows(key));
                    assert forall|other: ControlKey| other != key implies self.state(other) == old(
                        self,
                    ).state(other) by {
                        if old(self).knows(other) {
                            let p = old(self).position(other);
                            assert(self.entries@[p].0 == other);
                            assert(self.knows(other));
                            let q = self.position(other);
                            assert(old(self).entries@[q].0 == other);
                        } else if self.knows(other) {
                            let q = self.position(other);
                            assert(old(self).entries@[q].0 == other);
                        }
                    }
                }
            },
        }
    }

    /// Registers the control `key`; its recording does not run.
    pub fn register(&mut self, key: ControlKey)
        requires
            old(self).wf(),
        ensures
            final(self).wf(),
            final(self).state(key) == Some(false),
            forall|other: ControlKey| other != key ==> final(self).state(other) == old(self).state(
                other,
            ),
    {
        self.set(key, false);
    }
}

/// What an added reaction leads to.
#[derive(Debug)]
pub enum ReactionAdd {
    /// Nothing: another emoji, no guild, no control, a recording that runs
    /// already, or a channel without identity.
    Ignore,
    /// The user is told to enter a voice channel first.
    NotInVoice { message: String },
    /// The voice channel is joined; the recording starts once that
    /// succeeded.
    Join { key: ControlKey, channel_id: ChannelId },
}

/// Whether a reaction with this emoji on this control starts something: the
/// emoji is the recording emoji, the reaction has a guild, and the control
/// is registered and not running.
pub open spec fn starts(controls: &ReactionControls, emoji: Seq<char>, key: Option<ControlKey>) -> bool {
    emoji == RECORD_EMOJI@ && key is Some && controls.state(key.unwrap()) == Some(false)
}

/// Decides on an added reaction. `key` is `None` for a reaction outside a
/// guild; `voice_channel` is the channel the user is in.
pub fn plan_reaction_add(
    controls: &ReactionControls,
    emoji: &str,
    key: Option<ControlKey>,
    voice_channel: Option<ChannelId>,
) -> (plan: ReactionAdd)
    requires
        controls.wf(),
    ensures
        !starts(controls, emoji@, key) ==> plan is Ignore,
        starts(controls, emoji@, key) ==> (match voice_channel {
            None => plan matches ReactionAdd::NotInVoice { message } && message@
                == REACTION_NOT_IN_VOICE@,
            Some(channel) => if channel == 0 {
                plan is Ignore
            } else {
                plan matches ReactionAdd::Join { key: k, channel_id } && Some(k) == key
                    && channel_id == channel
            },
        }),
{
    let key = match key {
        Some(k) => k,
        None => {
            return ReactionAdd::Ignore;
        },
    };
    if !str_eq(emoji, RECORD_EMOJI) {
        return ReactionAdd::Ignore;
    }
    match controls.get(key) {
        Some(false) => {},
        _ => {
            return ReactionAdd::Ignore;
        },
    }
    match voice_channel {
        None => ReactionAdd::NotInVoice { message: REACTION_NOT_IN_VOICE.to_owned() },
        Some(channel) => {
            if channel == 0 {
                ReactionAdd::Ignore
            } else {
                ReactionAdd::Join { key, channel_id: channel }
            }
        },
    }
}

/// Whether a removed reaction with this emoji on this control stops its
/// recording: the emoji is the recording emoji and the control is
/// registered and running.
pub open spec fn stops(controls: &ReactionControls, emoji: Seq<char>, key: ControlKey) -> bool {
    emoji == RECORD_EMOJI@ && controls.state(key) == Some(true)
}

/// Decides on a removed reaction. Where it stops a recording, the control
/// is set back to not running, so that it can start another, and `true` is
/// returned: the caller then stops and finalizes the session.
pub fn plan_reaction_remove(controls: &mut ReactionControls, emoji: &str, key: ControlKey) -> (stop:
    bool)
    requires
        old(controls).wf(),
    ensures
        final(controls).wf(),
        stop == stops(old(controls), emoji@, key),
        stop ==> final(controls).state(key) == Some(false),
        !stop ==> final(controls).state(key) == old(controls).state(key),
        forall|other: ControlKey| other != key ==> final(controls).state(other) == old(
            controls,
        ).state(other),
{
    if !str_eq(emoji, RECORD_EMOJI) {
        return false;
    }
    match controls.get(key) {
        Some(true) => {
            controls.set(key, false);
            true
        },
        _ => false,
    }
}

} // verus!
