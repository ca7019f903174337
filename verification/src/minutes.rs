//! From the artifacts of a capture session to meeting minutes: speaker
//! labels, the full transcript, and what is reported in the end.

use vstd::prelude::*;
use crate::ids::SpeakerId;
use crate::text::{decimal, prefix_of, push_decimal, take_chars};

verus! {

/// The pieces of `s` that end with a line feed, and the rest after the last
/// line feed where there is one.
pub open spec fn line_pieces(s: Seq<char>) -> Seq<Seq<char>>
    decreases s.len(),
{
    if s.len() == 0 {
        Seq::empty()
    } else {
        let before = line_pieces(s.drop_last());
        if before.len() > 0 && before.last().len() > 0 && before.last().last() != '\n' {
            before.drop_last().push(before.last().push(s.last()))
        } else {
            before.push(seq![s.last()])
        }
    }
}

/// A piece without its line ending: a line feed, or a carriage return
/// followed by a line feed.
pub open spec fn line_of(piece: Seq<char>) -> Seq<char> {
    if piece.len() > 0 && piece.last() == '\n' {
        let body = piece.drop_last();
        if body.len() > 0 && body.last() == '\r' {
            body.drop_last()
        } else {
            body
        }
    } else {
        piece
    }
}

/// The lines of `s`, without their endings. A final line ending opens no
/// further line.
pub open spec fn lines_of(s: Seq<char>) -> Seq<Seq<char>> {
    Seq::new(line_pieces(s).len(), |i: int| line_of(line_pieces(s)[i]))
}

/// One line of a transcript under the name of its speaker.
pub open spec fn labeled_line(name: Seq<char>, line: Seq<char>) -> Seq<char> {
    "**["@ + name + "]**: "@ + line
}

/// The labelled lines joined by line feeds.
pub open spec fn joined_labeled(name: Seq<char>, lines: Seq<Seq<char>>) -> Seq<char>
    decreases lines.len(),
{
    if lines.len() == 0 {
        Seq::empty()
    } else if lines.len() == 1 {
        labeled_line(name, lines[0])
    } else {
        joined_labeled(name, lines.drop_last()) + seq!['\n'] + labeled_line(name, lines.last())
    }
}

/// A transcription with every line under the name of its speaker.
pub open spec fn labeled(name: Seq<char>, text: Seq<char>) -> Seq<char> {
    joined_labeled(name, lines_of(text))
}

/// The pieces of `v`, each as a sequence.
pub open spec fn piece_views(v: Seq<Vec<char>>) -> Seq<Seq<char>> {
    Seq::new(v.len(), |i: int| v[i]@)
}

/// Splits `text` after every line feed.
fn split_pieces(text: &str) -> (pieces: Vec<Vec<char>>)
    ensures
        piece_views(pieces@) == line_pieces(text@),
{
    let mut done: Vec<Vec<char>> = Vec::new();
    let mut current: Vec<char> = Vec::new();
    for c in it: text.chars()
        invariant
            it.seq() == text@,
            forall|k: int|
                0 <= k < done@.len() ==> (#[trigger] done@[k])@.len() > 0 && done@[k]@.last()
                    == '\n',
            forall|k: int| 0 <= k < current@.len() ==> current@[k] != '\n',
            line_pieces(text@.take(it.index())) == (if current@.len() > 0 {
                piece_views(done@).push(current@)
            } else {
                piece_views(done@)
            }),
    {
        let ghost seen = text@.take(it.index());
        let ghost before = line_pieces(seen);
        let ghost closed = piece_views(done@);
        let ghost open = current@;
        proof {
            assert(text@.take(it.index() + 1).drop_last() =~= seen);
            assert(text@.take(it.index() + 1).last() == c);
            if open.len() > 0 {
                assert(before.last() == open);
                assert(before.drop_last() =~= closed);
            } else if closed.len() > 0 {
                assert(before.last() == done@[done@.len() - 1]@);
            }
        }
        let ghost after = line_pieces(text@.take(it.index() + 1));
        proof {
            if open.len() > 0 {
                assert(open.last() != '\n');
                assert(after =~= closed.push(open.push(c)));
            } else {
                assert(open.push(c) =~= seq![c]);
                assert(after =~= closed.push(open.push(c)));
            }
        }
        current.push(c);
        if c == '\n' {
            done.push(current);
            current = Vec::new();
            assert(piece_views(done@) =~= closed.push(open.push(c)));
        } else {
            assert(piece_views(done@) =~= closed);
            assert(current@ == open.push(c));
        }
    }
    assert(text@.take(text@.len() as int) =~= text@);
    if current.len() > 0 {
        let ghost closed = piece_views(done@);
        let ghost open = current@;
        done.push(current);
        assert(piece_views(done@) =~= closed.push(open));
    }
    done
}

/// Appends `piece` without its line ending to `out`.
fn push_line(out: &mut String, piece: &Vec<char>)
    ensures
        final(out)@ == old(out)@ + line_of(piece@),
{
    let mut end: usize = piece.len();
    if end > 0 && piece[end - 1] == '\n' {
        end = end - 1;
        if end > 0 && piece[end - 1] == '\r' {
            end = end - 1;
        }
    }
    assert(line_of(piece@) =~= piece@.take(end as int));
    let mut i: usize = 0;
    while i < end
        invariant
            0 <= i <= end <= piece@.len(),
            out@ == old(out)@ + piece@.take(i as int),
        decreases end - i,
    {
        out.push(piece[i]);
        assert(out@ =~= old(out)@ + piece@.take(i + 1));
        i = i + 1;
    }
}

/// Puts every line of `transcription` under the name of its speaker.
pub fn label_lines(speaker_name: &str, transcription: &str) -> (out: String)
    ensures
        out@ == labeled(speaker_name@, transcription@),
{
    let pieces = split_pieces(transcription);
    let ghost lines = lines_of(transcription@);
    let mut out = String::new();
    let mut i: usize = 0;
    while i < pieces.len()
        invariant
            0 <= i <= pieces@.len(),
            piece_views(pieces@) == line_pieces(transcription@),
            lines == lines_of(transcription@),
            lines.len() == pieces@.len(),
            out@ == joined_labeled(speaker_name@, lines.take(i as int)),
        decreases pieces@.len() - i,
    {
        let ghost before = out@;
        proof {
            assert(lines.take(i + 1).drop_last() =~= lines.take(i as int));
            assert(lines.take(i + 1).last() == line_of(pieces@[i as int]@)) by {
                assert(piece_views(pieces@)[i as int] == pieces@[i as int]@);
            }
            if i == 0 {
                assert(lines.take(1)[0] == lines[0]);
            }
        }
        if i > 0 {
            out.push('\n');
        }
        out.append("**[");
        out.append(speaker_name);
        out.append("]**: ");
        push_line(&mut out, &pieces[i]);
        proof {
            let line = line_of(pieces@[i as int]@);
            if i == 0 {
                assert(before =~= Seq::<char>::empty());
                assert(out@ =~= labeled_line(speaker_name@, line));
            } else {
                assert(out@ =~= before + seq!['\n'] + labeled_line(speaker_name@, line));
            }
        }
        i = i + 1;
    }
    assert(lines.take(i as int) =~= lines);
    out
}

/// Name for a speaker whose artifact names nobody.
pub const UNKNOWN_SPEAKER: &'static str = "Unknown Speaker";

/// How a member of the guild is known.
#[derive(Debug)]
pub struct MemberName {
    pub nick: Option<String>,
    pub name: String,
}

/// The name a speaker is shown under: the nickname followed by the user
/// name in parentheses for a member with a nickname, the user name for one
/// without, `User` and the identifier where the member is not known, and
/// [`UNKNOWN_SPEAKER`] where the speaker is not.
pub open spec fn shown_name(speaker: Option<SpeakerId>, member: Option<MemberName>) -> Seq<char> {
    match speaker {
        None => UNKNOWN_SPEAKER@,
        Some(id) => match member {
            None => "User "@ + decimal(id as nat),
            Some(m) => match m.nick {
                Some(nick) => nick@ + " ("@ + m.name@ + ")"@,
                None => m.name@,
            },
        },
    }
}

/// The name a speaker is shown under.
pub fn speaker_display_name(speaker: Option<SpeakerId>, member: Option<&MemberName>) -> (name:
    String)
    ensures
        name@ == shown_name(
            speaker,
            match member {
                Some(m) => Some(*m),
                None => None,
            },
        ),
{
    match speaker {
        None => UNKNOWN_SPEAKER.to_owned(),
        Some(id) => match member {
            None => {
                let mut name = "User ".to_owned();
                push_decimal(&mut name, id);
                name
            },
            Some(m) => match &m.nick {
                Some(nick) => {
                    let mut name = nick.clone();
                    name.append(" (");
                    name.append(m.name.as_str());
                    name.append(")");
                    name
                },
                None => m.name.clone(),
            },
        },
    }
}

/// The transcript of a meeting as it grows artifact by artifact, and the
/// failures along the way. A failure never ends the walk.
#[derive(Debug)]
pub struct MeetingTranscript {
    pub full_transcript: String,
    pub transcription_errors: Vec<String>,
}

/// What one transcription adds to the transcript: nothing when it is
/// empty, else its text, labelled where a speaker name is given, and a
/// blank line.
pub open spec fn transcript_entry(speaker_name: Option<Seq<char>>, transcription: Seq<char>) -> Seq<
    char,
> {
    if transcription.len() == 0 {
        Seq::empty()
    } else {
        (match speaker_name {
            Some(name) => labeled(name, transcription),
            None => transcription,
        }) + seq!['\n', '\n']
    }
}

/// The record of an artifact that could not be transcribed.
pub open spec fn failure_entry(file_path: Seq<char>, error: Seq<char>) -> Seq<char> {
    "File "@ + file_path + ": "@ + error
}

/// The texts of `v`.
pub open spec fn entry_views(v: Seq<String>) -> Seq<Seq<char>> {
    Seq::new(v.len(), |i: int| v[i]@)
}

impl MeetingTranscript {
    /// A transcript without text and without failures.
    pub fn new() -> (t: Self)
        ensures
            t.full_transcript@.len() == 0,
            t.transcription_errors@.len() == 0,
    {
        MeetingTranscript { full_transcript: String::new(), transcription_errors: Vec::new() }
    }

    /// Adds the transcription of one artifact.
    pub fn add_transcription(&mut self, speaker_name: Option<&str>, transcription: &str)
        ensures
            final(self).transcription_errors == old(self).transcription_errors,
            final(self).full_transcript@ == old(self).full_transcript@ + transcript_entry(
                match speaker_name {
                    Some(name) => Some(name@),
                    None => None,
                },
                transcription@,
            ),
    {
        if transcription.is_empty() {
            assert(self.full_transcript@ + Seq::<char>::empty() =~= self.full_transcript@);
            return ;
        }
        let ghost before = self.full_transcript@;
        match speaker_name {
            Some(name) => {
                let text = label_lines(name, transcription);
                self.full_transcript.append(text.as_str());
                self.full_transcript.push('\n');
                self.full_transcript.push('\n');
                assert(self.full_transcript@ =~= before + (labeled(name@, transcription@)
                    + seq!['\n', '\n']));
            },
            None => {
                self.full_transcript.append(transcription);
                self.full_transcript.push('\n');
                self.full_transcript.push('\n');
                assert(self.full_transcript@ =~= before + (transcription@ + seq!['\n', '\n']));
            },
        }
    }

    /// Records that the artifact at `file_path` could not be transcribed.
    /// The transcript itself stays as it is.
    pub fn add_failure(&mut self, file_path: &str, error: &str)
        ensures
            final(self).full_transcript == old(self).full_transcript,
            entry_views(final(self).transcription_errors@) == entry_views(
                old(self).transcription_errors@,
            ).push(failure_entry(file_path@, error@)),
    {
        let mut entry = "File ".to_owned();
        entry.append(file_path);
        entry.append(": ");
        entry.append(error);
        self.transcription_errors.push(entry);
        assert(entry_views(self.transcription_errors@) =~= entry_views(
            old(self).transcription_errors@,
        ).push(failure_entry(file_path@, error@)));
    }
}

/// What is done once every artifact of a stopped capture session has been
/// gone through.
#[derive(Debug, Clone, Copy, PartialEq, Eq)]
pub enum MeetingConclusion {
    /// The session left no artifact.
    NothingRecorded,
    /// There were artifacts, but the transcript is empty.
    NothingHeard,
    /// The transcript goes to the summarization service.
    Summarize,
}

/// Decides how a stopped capture session with `artifact_count` artifacts
/// and this transcript is concluded.
pub fn conclude(artifact_count: usize, transcript: &MeetingTranscript) -> (c: MeetingConclusion)
    ensures
        c == (if artifact_count == 0 {
            MeetingConclusion::NothingRecorded
        } else if transcript.full_transcript@.len() == 0 {
            MeetingConclusion::NothingHeard
        } else {
            MeetingConclusion::Summarize
        }),
{
    if artifact_count == 0 {
        MeetingConclusion::NothingRecorded
    } else if transcript.full_transcript.as_str().is_empty() {
        MeetingConclusion::NothingHeard
    } else {
        MeetingConclusion::Summarize
    }
}

/// Most characters of a transcript that are shown beside the minutes.
pub const TRANSCRIPT_SHOWN_CHARS: usize = 1950;

/// Most characters of a transcript that are shown when summarizing failed.
pub const RAW_TRANSCRIPT_SHOWN_CHARS: usize = 1900;

/// The message that shows the transcript.
pub open spec fn transcript_message_text(full_transcript: Seq<char>) -> Seq<char> {
    "📝 **Full Transcription**\n```\n"@ + prefix_of(
        full_transcript,
        TRANSCRIPT_SHOWN_CHARS as nat,
    ) + "\n```"@
}

/// The message that shows the minutes.
pub open spec fn minutes_message_text(minutes: Seq<char>) -> Seq<char> {
    "✅ **Meeting Minutes Generated**\n\n"@ + minutes
}

/// The message for a transcript that could not be summarized: the raw
/// transcript stands in for the minutes.
pub open spec fn degraded_message_text(full_transcript: Seq<char>, error: Seq<char>) -> Seq<char> {
    "⚠️ **Transcription completed but summarization failed**\n\n**Raw Transcription:**\n```\n"@
        + prefix_of(full_transcript, RAW_TRANSCRIPT_SHOWN_CHARS as nat) + "\n```\n\nError: "@
        + error
}

/// The message that shows the transcript.
pub fn transcript_message(full_transcript: &str) -> (m: String)
    ensures
        m@ == transcript_message_text(full_transcript@),
{
    let mut m = "📝 **Full Transcription**\n```\n".to_owned();
    m.append(take_chars(full_transcript, TRANSCRIPT_SHOWN_CHARS).as_str());
    m.append("\n```");
    m
}

/// The message that shows the minutes.
pub fn minutes_message(minutes: &str) -> (m: String)
    ensures
        m@ == minutes_message_text(minutes@),
{
    let mut m = "✅ **Meeting Minutes Generated**\n\n".to_owned();
    m.append(minutes);
    m
}

/// The message for a transcript that could not be summarized.
pub fn degraded_message(full_transcript: &str, error: &str) -> (m: String)
    ensures
        m@ == degraded_message_text(full_transcript@, error@),
{
    let mut m =
        "⚠️ **Transcription completed but summarization failed**\n\n**Raw Transcription:**\n```\n".to_owned();
    m.append(take_chars(full_transcript, RAW_TRANSCRIPT_SHOWN_CHARS).as_str());
    m.append("\n```\n\nError: ");
    m.append(error);
    m
}

/// What is reported for a transcript after the summarization service was
/// asked: the transcript and the minutes, each in a message of its own, or,
/// where the service failed, one message with the raw transcript.
pub fn report_summary(full_transcript: &str, summary: Result<String, String>) -> (messages: Vec<
    String,
>)
    ensures
        match summary {
            Ok(minutes) => entry_views(messages@) == seq![
                transcript_message_text(full_transcript@),
                minutes_message_text(minutes@),
            ],
            Err(error) => entry_views(messages@) == seq![
                degraded_message_text(full_transcript@, error@),
            ],
        },
{
    let mut messages: Vec<String> = Vec::new();
    match summary {
        Ok(minutes) => {
            messages.push(transcript_message(full_transcript));
            messages.push(minutes_message(minutes.as_str()));
            assert(entry_views(messages@) =~= seq![
                transcript_message_text(full_transcript@),
                minutes_message_text(minutes@),
            ]);
        },
        Err(error) => {
            messages.push(degraded_message(full_transcript, error.as_str()));
            assert(entry_views(messages@) =~= seq![
                degraded_message_text(full_transcript@, error@),
            ]);
        },
    }
    messages
}

} // verus!
