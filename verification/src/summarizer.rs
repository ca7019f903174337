//! The summarization service seen from the pipeline: what is asked, and
//! what is made of the answer. Sending itself is left to the caller.

use vstd::prelude::*;

verus! {

/// Address of the chat-completion endpoint.
pub const SUMMARY_URL: &'static str = "https://api.z.ai/api/paas/v4/chat/completions";

/// Model that writes the summaries.
pub const SUMMARY_MODEL: &'static str = "glm-4.7-flash";

/// Role text for meeting minutes.
pub const MINUTES_SYSTEM_PROMPT: &'static str =
    "あなたはプロの会議議事録作成者です。与えられた文字起こしテキストから、構造化された議事録を作成してください。日本語で回答してください。";

/// Instruction for meeting minutes; the transcript follows it.
pub const MINUTES_INSTRUCTION: &'static str =
    "以下の会議の文字起こしテキストから、議事録を作成してください。\n\n以下の形式で出力してください:\n📋 **会議概要**\n[簡潔な会議の要約（3-5行）]\n\n👥 **参加者**\n[発言者一覧]\n\n💬 **主な議論内容**\n- [議題1]: [要点]\n- [議題2]: [要点]\n\n✅ **決定事項**\n- [決定1]\n- [決定2]\n\n📌 **アクションアイテム**\n- [担当]: [タスク内容]\n\n---\n文字起こしテキスト:\n";

/// Role text for a short summary.
pub const SHORT_SYSTEM_PROMPT: &'static str = "簡潔な要約を作成してください。日本語で回答してください。";

/// Instruction for a short summary; the text follows it.
pub const SHORT_INSTRUCTION: &'static str = "以下のテキストを簡潔に要約してください（200文字以内）:\n\n";

/// Access to the summarization service.
pub struct Summarizer {
    pub api_key: String,
}

/// What is sent to the service for one summary. The sampling temperature
/// is given in tenths.
#[derive(Debug)]
pub struct SummaryRequest {
    pub url: String,
    pub authorization: String,
    pub model: String,
    pub system_prompt: String,
    pub user_prompt: String,
    pub temperature_tenths: u8,
    pub max_tokens: u32,
}

/// Why a summary could not be had.
#[derive(Debug)]
pub enum SummaryError {
    /// The request got no answer.
    SendFailed { detail: String },
    /// The service answered with a status other than success.
    Refused { detail: String },
    /// The service answered with success; the answer could not be read.
    Unreadable { detail: String },
    /// The service answered with success and no text.
    NoResponse,
}

/// How the request for a summary ended.
#[derive(Debug)]
pub enum SummaryOutcome {
    /// The request got no answer.
    SendFailed { reason: String },
    /// The service answered with a status other than success.
    Refused { status_line: String, body: String },
    /// The service answered with success; the answer could not be read.
    Unreadable { reason: String },
    /// The service answered with success and these texts.
    Answered { choices: Vec<String> },
}

/// The detail of an error after an answer with a failure status.
pub open spec fn summary_refusal_detail(status_line: Seq<char>, body: Seq<char>) -> Seq<char> {
    "z.ai API error: "@ + status_line + " - "@ + body
}

/// What is made of the answer of the service: the first text, or the error
/// that goes with the outcome.
pub fn read_summary(outcome: SummaryOutcome) -> (r: Result<String, SummaryError>)
    ensures
        match outcome {
            SummaryOutcome::SendFailed { reason } => r matches Err(
                SummaryError::SendFailed { detail },
            ) && detail@ == reason@,
            SummaryOutcome::Refused { status_line, body } => r matches Err(
                SummaryError::Refused { detail },
            ) && detail@ == summary_refusal_detail(status_line@, body@),
            SummaryOutcome::Unreadable { reason } => r matches Err(
                SummaryError::Unreadable { detail },
            ) && detail@ == reason@,
            SummaryOutcome::Answered { choices } => if choices@.len() > 0 {
                r matches Ok(text) && text@ == choices@[0]@
            } else {
                r matches Err(SummaryError::NoResponse)
            },
        },
{
    match outcome {
        SummaryOutcome::SendFailed { reason } => Err(SummaryError::SendFailed { detail: reason }),
        SummaryOutcome::Refused { status_line, body } => {
            let mut detail = "z.ai API error: ".to_owned();
            detail.append(status_line.as_str());
            detail.append(" - ");
            detail.append(body.as_str());
            Err(SummaryError::Refused { detail })
        },
        SummaryOutcome::Unreadable { reason } => Err(SummaryError::Unreadable { detail: reason }),
        SummaryOutcome::Answered { choices } => {
            if choices.len() > 0 {
                Ok(choices[0].clone())
            } else {
                Err(SummaryError::NoResponse)
            }
        },
    }
}

impl SummaryError {
    /// The error in words.
    pub fn message(&self) -> (text: String)
        ensures
            text@ == (match *self {
                SummaryError::SendFailed { detail } => detail@,
                SummaryError::Refused { detail } => detail@,
                SummaryError::Unreadable { detail } => detail@,
                SummaryError::NoResponse => "No response from z.ai API"@,
            }),
    {
        match self {
            SummaryError::SendFailed { detail } => detail.clone(),
            SummaryError::Refused { detail } => detail.clone(),
            SummaryError::Unreadable { detail } => detail.clone(),
            SummaryError::NoResponse => "No response from z.ai API".to_owned(),
        }
    }
}

impl Summarizer {
    /// Access with `api_key`.
    pub fn new(api_key: String) -> (s: Self)
        ensures
            s.api_key@ == api_key@,
    {
        Summarizer { api_key }
    }

    fn request(&self, system_prompt: &str, instruction: &str, transcript: &str, tenths: u8, max_tokens: u32) -> (r:
        SummaryRequest)
        ensures
            r.url@ == SUMMARY_URL@,
            r.authorization@ == "Bearer "@ + self.api_key@,
            r.model@ == SUMMARY_MODEL@,
            r.system_prompt@ == system_prompt@,
            r.user_prompt@ == instruction@ + transcript@,
            r.temperature_tenths == tenths,
            r.max_tokens == max_tokens,
    {
        let mut authorization = "Bearer ".to_owned();
        authorization.append(self.api_key.as_str());
        let mut user_prompt = instruction.to_owned();
        user_prompt.append(transcript);
        SummaryRequest {
            url: SUMMARY_URL.to_owned(),
            authorization,
            model: SUMMARY_MODEL.to_owned(),
            system_prompt: system_prompt.to_owned(),
            user_prompt,
            temperature_tenths: tenths,
            max_tokens,
        }
    }

    /// The request for structured minutes of the meeting with this
    /// transcript.
    pub fn summarize_meeting(&self, transcript: &str) -> (r: SummaryRequest)
        ensures
            r.url@ == SUMMARY_URL@,
            r.authorization@ == "Bearer "@ + self.api_key@,
            r.model@ == SUMMARY_MODEL@,
            r.system_prompt@ == MINUTES_SYSTEM_PROMPT@,
            r.user_prompt@ == MINUTES_INSTRUCTION@ + transcript@,
            r.temperature_tenths == 7,
            r.max_tokens == 4096,
    {
        self.request(MINUTES_SYSTEM_PROMPT, MINUTES_INSTRUCTION, transcript, 7, 4096)
    }

    /// The request for a summary of `transcript` in a few lines.
    pub fn summarize_short(&self, transcript: &str) -> (r: SummaryRequest)
        ensures
            r.url@ == SUMMARY_URL@,
            r.authorization@ == "Bearer "@ + self.api_key@,
            r.model@ == SUMMARY_MODEL@,
            r.system_prompt@ == SHORT_SYSTEM_PROMPT@,
            r.user_prompt@ == SHORT_INSTRUCTION@ + transcript@,
            r.temperature_tenths == 5,
            r.max_tokens == 512,
    {
        self.request(SHORT_SYSTEM_PROMPT, SHORT_INSTRUCTION, transcript, 5, 512)
    }
}

} // verus!
