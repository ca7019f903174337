//! The translation service seen from the pipeline: what is sent, and what
//! is done with each answer. Sending itself is left to the caller.

use vstd::prelude::*;
use crate::speech::{is_mostly_japanese, mostly_japanese};
use crate::text::{
    chars_eq, chars_of, ends_with_chars, has_suffix, is_control, is_control_char, lowercase_of,
    prefix_of,
    trimmed, trimmed_end,
};

verus! {

/// Longest text, in characters, that is sent for translation.
pub const MAX_TEXT_CHARS: usize = 2000;

/// Why a translation could not be had.
#[derive(Debug)]
pub enum TranslateError {
    /// The language is none that the service is asked for.
    UnsupportedLanguage { code: String },
    /// The service kept answering that the rate limit was hit.
    RateLimited { detail: String },
    /// The service could not be reached or kept answering with a server
    /// error.
    TransientUnavailable { detail: String },
    /// The quota of the account is used up. This is never retried.
    QuotaExceeded,
    /// The service refused the request.
    BadRequest { detail: String },
    /// The service answered with success but the answer could not be read.
    MalformedResponse { detail: String },
    /// The service answered with success and no translation.
    NoTranslation,
}

/// Access to the translation service: the key and the base address that
/// goes with it.
pub struct Translator {
    pub api_key: String,
    pub api_base: String,
}

/// The base address for `api_key`: keys of the free plan end in `:fx`.
pub open spec fn api_base_for(api_key: Seq<char>) -> Seq<char> {
    if has_suffix(trimmed_end(api_key), ":fx"@) {
        "https://api-free.deepl.com"@
    } else {
        "https://api.deepl.com"@
    }
}

/// Whether sanitizing keeps `c`: everything but control codes, of which
/// only line feed and tab stay.
pub open spec fn is_kept(c: char) -> bool {
    !is_control_char(c) || c == '\n' || c == '\t'
}

/// `s` without the characters that sanitizing drops.
pub open spec fn only_kept(s: Seq<char>) -> Seq<char>
    decreases s.len(),
{
    if s.len() == 0 {
        Seq::empty()
    } else if is_kept(s.last()) {
        only_kept(s.drop_last()).push(s.last())
    } else {
        only_kept(s.drop_last())
    }
}

/// What stands for `c` in sanitized text: angle brackets are escaped.
pub open spec fn escape_of(c: char) -> Seq<char> {
    if c == '<' {
        seq!['&', 'l', 't', ';']
    } else if c == '>' {
        seq!['&', 'g', 't', ';']
    } else {
        seq![c]
    }
}

/// `s` with every angle bracket escaped.
pub open spec fn escaped(s: Seq<char>) -> Seq<char>
    decreases s.len(),
{
    if s.len() == 0 {
        Seq::empty()
    } else {
        escaped(s.drop_last()) + escape_of(s.last())
    }
}

/// Sanitized text: dropped characters removed, cut to the first
/// [`MAX_TEXT_CHARS`] characters, angle brackets escaped.
pub open spec fn sanitized(s: Seq<char>) -> Seq<char> {
    escaped(prefix_of(only_kept(s), MAX_TEXT_CHARS as nat))
}

/// The code that the service knows the normalized language name `n` by.
pub open spec fn service_code(n: Seq<char>) -> Option<Seq<char>> {
    if n == "ja"@ || n == "japanese"@ || n == "jp"@ {
        Some("JA"@)
    } else if n == "ko"@ || n == "korean"@ || n == "kr"@ {
        Some("KO"@)
    } else if n == "en"@ || n == "english"@ || n == "en-us"@ || n == "en_us"@ {
        Some("EN-US"@)
    } else if n == "en-gb"@ || n == "en_gb"@ {
        Some("EN-GB"@)
    } else {
        None
    }
}

/// The code that the service knows the normalized language name by, where
/// it knows it. `normalized` is the name trimmed and in lowercase.
pub fn service_code_for(normalized: &str) -> (code: Option<&'static str>)
    ensures
        match code {
            Some(c) => service_code(normalized@) == Some(c@),
            None => service_code(normalized@) is None,
        },
{
    let n = chars_of(normalized);
    if chars_eq(&n, &chars_of("ja")) || chars_eq(&n, &chars_of("japanese")) || chars_eq(
        &n,
        &chars_of("jp"),
    ) {
        Some("JA")
    } else if chars_eq(&n, &chars_of("ko")) || chars_eq(&n, &chars_of("korean")) || chars_eq(
        &n,
        &chars_of("kr"),
    ) {
        Some("KO")
    } else if chars_eq(&n, &chars_of("en")) || chars_eq(&n, &chars_of("english")) || chars_eq(
        &n,
        &chars_of("en-us"),
    ) || chars_eq(&n, &chars_of("en_us")) {
        Some("EN-US")
    } else if chars_eq(&n, &chars_of("en-gb")) || chars_eq(&n, &chars_of("en_gb")) {
        Some("EN-GB")
    } else {
        None
    }
}

/// Escaped text holds no angle bracket, and is at most four times as long.
pub proof fn lemma_escaped_has_no_brackets(s: Seq<char>)
    ensures
        forall|i: int| 0 <= i < escaped(s).len() ==> escaped(s)[i] != '<' && escaped(s)[i] != '>',
        escaped(s).len() <= 4 * s.len(),
    decreases s.len(),
{
    if s.len() > 0 {
        lemma_escaped_has_no_brackets(s.drop_last());
        let before = escaped(s.drop_last());
        let piece = escape_of(s.last());
        assert forall|i: int| 0 <= i < escaped(s).len() implies escaped(s)[i] != '<' && escaped(
            s,
        )[i] != '>' by {
            if i < before.len() {
                assert(escaped(s)[i] == before[i]);
            } else {
                assert(escaped(s)[i] == piece[i - before.len()]);
            }
        }
    }
}

/// Sanitized text holds no angle bracket, whatever the text it was made
/// from, and its length is bounded.
pub proof fn lemma_sanitized_is_clean(s: Seq<char>)
    ensures
        forall|i: int|
            0 <= i < sanitized(s).len() ==> sanitized(s)[i] != '<' && sanitized(s)[i] != '>',
        sanitized(s).len() <= 4 * MAX_TEXT_CHARS,
{
    lemma_escaped_has_no_brackets(prefix_of(only_kept(s), MAX_TEXT_CHARS as nat));
}

proof fn lemma_escaped_push(s: Seq<char>, c: char)
    ensures
        escaped(s.push(c)) == escaped(s) + escape_of(c),
{
    assert(s.push(c).drop_last() =~= s);
}

impl Translator {
    /// Access with `api_key`; the base address follows from the key.
    pub fn new(api_key: String) -> (t: Self)
        ensures
            t.api_key@ == api_key@,
            t.api_base@ == api_base_for(api_key@),
    {
        let key = chars_of(api_key.as_str().trim_end());
        let free = ends_with_chars(&key, &chars_of(":fx"));
        let api_base = if free {
            "https://api-free.deepl.com".to_owned()
        } else {
            "https://api.deepl.com".to_owned()
        };
        Translator { api_key, api_base }
    }

    /// Makes text from a user fit to be sent: control codes other than line
    /// feed and tab are dropped, the text is cut to [`MAX_TEXT_CHARS`]
    /// characters, and angle brackets are escaped.
    pub fn sanitize_input(&self, text: &str) -> (out: String)
        ensures
            out@ == sanitized(text@),
    {
        let mut out = String::new();
        let mut count: usize = 0;
        for c in it: text.chars()
            invariant
                it.seq() == text@,
                count <= MAX_TEXT_CHARS,
                count == prefix_of(only_kept(text@.take(it.index())), MAX_TEXT_CHARS as nat).len(),
                count < MAX_TEXT_CHARS ==> only_kept(text@.take(it.index())).len() == count,
                out@ == escaped(
                    prefix_of(only_kept(text@.take(it.index())), MAX_TEXT_CHARS as nat),
                ),
        {
            let ghost seen = text@.take(it.index());
            let ghost kept = only_kept(seen);
            proof {
                assert(text@.take(it.index() + 1).drop_last() =~= seen);
                assert(text@.take(it.index() + 1).last() == c);
            }
            let keep = !is_control(c) || c == '\n' || c == '\t';
            if keep && count < MAX_TEXT_CHARS {
                proof {
                    assert(prefix_of(kept, MAX_TEXT_CHARS as nat) == kept);
                    assert(prefix_of(kept.push(c), MAX_TEXT_CHARS as nat) == kept.push(c));
                    lemma_escaped_push(kept, c);
                }
                if c == '<' {
                    out.push('&');
                    out.push('l');
                    out.push('t');
                    out.push(';');
                } else if c == '>' {
                    out.push('&');
                    out.push('g');
                    out.push('t');
                    out.push(';');
                } else {
                    out.push(c);
                }
                count = count + 1;
                assert(out@ =~= escaped(kept) + escape_of(c));
            } else if keep {
                proof {
                    assert(prefix_of(kept.push(c), MAX_TEXT_CHARS as nat) =~= prefix_of(
                        kept,
                        MAX_TEXT_CHARS as nat,
                    ));
                }
            }
        }
        assert(text@.take(text@.len() as int) =~= text@);
        out
    }

    /// The code that the service knows `lang` by. Case and surrounding
    /// whitespace do not matter.
    pub fn map_language_code(&self, lang: &str) -> (r: Result<String, TranslateError>)
        ensures
            match r {
                Ok(code) => service_code(lowercase_of(trimmed(lang@))) == Some(code@),
                Err(TranslateError::UnsupportedLanguage { code }) => service_code(
                    lowercase_of(trimmed(lang@)),
                ) is None && code@ == lang@,
                Err(_) => false,
            },
    {
        let normalized = lang.trim().to_lowercase();
        match service_code_for(normalized.as_str()) {
            Some(code) => Ok(code.to_owned()),
            None => Err(TranslateError::UnsupportedLanguage { code: lang.to_owned() }),
        }
    }

    /// Guesses the language of `text` from its characters: `Japanese` where
    /// more than a tenth of them are Japanese, `English` otherwise.
    pub fn detect_language_local(text: &str) -> (name: String)
        ensures
            name@ == (if mostly_japanese(text@) {
                "Japanese"@
            } else {
                "English"@
            }),
    {
        if is_mostly_japanese(text) {
            "Japanese".to_owned()
        } else {
            "English".to_owned()
        }
    }
}

/// Mathematical value of a [`TranslateError`].
pub enum ErrorView {
    UnsupportedLanguage { code: Seq<char> },
    RateLimited { detail: Seq<char> },
    TransientUnavailable { detail: Seq<char> },
    QuotaExceeded,
    BadRequest { detail: Seq<char> },
    MalformedResponse { detail: Seq<char> },
    NoTranslation,
}

impl View for TranslateError {
    type V = ErrorView;

    open spec fn view(&self) -> ErrorView {
        match *self {
            TranslateError::UnsupportedLanguage { code } => ErrorView::UnsupportedLanguage {
                code: code@,
            },
            TranslateError::RateLimited { detail } => ErrorView::RateLimited { detail: detail@ },
            TranslateError::TransientUnavailable { detail } => ErrorView::TransientUnavailable {
                detail: detail@,
            },
            TranslateError::QuotaExceeded => ErrorView::QuotaExceeded,
            TranslateError::BadRequest { detail } => ErrorView::BadRequest { detail: detail@ },
            TranslateError::MalformedResponse { detail } => ErrorView::MalformedResponse {
                detail: detail@,
            },
            TranslateError::NoTranslation => ErrorView::NoTranslation,
        }
    }
}

/// Most attempts that are made for one translation.
pub const MAX_ATTEMPTS: u32 = 3;

/// The delay before the attempt after the `n`-th is `n` times this many
/// milliseconds.
pub const BACKOFF_BASE_MS: u64 = 200;

/// Status of an exhausted quota.
pub const STATUS_QUOTA_EXCEEDED: u16 = 456;

/// Status of a hit rate limit.
pub const STATUS_RATE_LIMITED: u16 = 429;

/// Whether `status` reports success.
pub open spec fn is_success(status: u16) -> bool {
    200 <= status <= 299
}

/// Whether `status` reports a failure that may pass: a hit rate limit or a
/// server error.
pub open spec fn is_retryable(status: u16) -> bool {
    status == 429 || status == 500 || status == 502 || status == 503 || status == 504
}

/// Whether `status` reports success.
pub fn status_is_success(status: u16) -> (r: bool)
    ensures
        r == is_success(status),
{
    200 <= status && status <= 299
}

/// Whether `status` reports a failure that may pass.
pub fn status_is_retryable(status: u16) -> (r: bool)
    ensures
        r == is_retryable(status),
{
    status == 429 || status == 500 || status == 502 || status == 503 || status == 504
}

/// How one attempt to reach the service ended.
#[derive(Debug)]
pub enum AttemptOutcome {
    /// The request got no answer.
    SendFailed { reason: String },
    /// The service answered with success and these translations.
    Translated { translations: Vec<String> },
    /// The service answered with success; the answer could not be read.
    Unreadable { reason: String },
    /// The service answered with a status other than success.
    Refused { status: u16, status_line: String, body: String },
}

/// Mathematical value of an [`AttemptOutcome`].
pub enum OutcomeView {
    SendFailed { reason: Seq<char> },
    Translated { translations: Seq<Seq<char>> },
    Unreadable { reason: Seq<char> },
    Refused { status: u16, status_line: Seq<char>, body: Seq<char> },
}

impl View for AttemptOutcome {
    type V = OutcomeView;

    open spec fn view(&self) -> OutcomeView {
        match *self {
            AttemptOutcome::SendFailed { reason } => OutcomeView::SendFailed { reason: reason@ },
            AttemptOutcome::Translated { translations } => OutcomeView::Translated {
                translations: Seq::new(translations@.len(), |i: int| translations@[i]@),
            },
            AttemptOutcome::Unreadable { reason } => OutcomeView::Unreadable { reason: reason@ },
            AttemptOutcome::Refused { status, status_line, body } => OutcomeView::Refused {
                status,
                status_line: status_line@,
                body: body@,
            },
        }
    }
}

/// What follows an attempt.
#[derive(Debug)]
pub enum NextStep {
    /// The translation is there.
    Deliver(String),
    /// Wait this long, then try again.
    RetryAfter { delay_ms: u64 },
    /// Give up with this error.
    Fail(TranslateError),
}

/// Mathematical value of a [`NextStep`].
pub enum StepView {
    Deliver(Seq<char>),
    RetryAfter { delay_ms: u64 },
    Fail(ErrorView),
}

impl View for NextStep {
    type V = StepView;

    open spec fn view(&self) -> StepView {
        match *self {
            NextStep::Deliver(text) => StepView::Deliver(text@),
            NextStep::RetryAfter { delay_ms } => StepView::RetryAfter { delay_ms },
            NextStep::Fail(e) => StepView::Fail(e@),
        }
    }
}

/// The detail of an error after a request that got no answer.
pub open spec fn send_failure_detail(reason: Seq<char>) -> Seq<char> {
    "DeepL request failed: "@ + reason
}

/// The detail of an error after an answer with a failure status.
pub open spec fn refusal_detail(status_line: Seq<char>, body: Seq<char>) -> Seq<char> {
    "DeepL API error: "@ + status_line + " - "@ + body
}

/// The delay before the attempt that follows attempt number `attempt`.
pub open spec fn backoff_ms(attempt: u32) -> u64 {
    (BACKOFF_BASE_MS * attempt) as u64
}

/// The error that an answer with the failure status `status` ends in once
/// it is not retried.
pub open spec fn refusal_error(status: u16, detail: Seq<char>) -> ErrorView {
    if status == STATUS_QUOTA_EXCEEDED {
        ErrorView::QuotaExceeded
    } else if status == STATUS_RATE_LIMITED {
        ErrorView::RateLimited { detail }
    } else if is_retryable(status) {
        ErrorView::TransientUnavailable { detail }
    } else {
        ErrorView::BadRequest { detail }
    }
}

/// The retry policy. Attempt number `attempt`, counted from one, ended in
/// `outcome`: a success delivers the first translation, trimmed; a failure
/// that may pass is retried with a growing delay as long as attempts are
/// left; everything else fails at once.
pub open spec fn decided(attempt: u32, outcome: OutcomeView) -> StepView {
    match outcome {
        OutcomeView::SendFailed { reason } => if attempt < MAX_ATTEMPTS {
            StepView::RetryAfter { delay_ms: backoff_ms(attempt) }
        } else {
            StepView::Fail(
                ErrorView::TransientUnavailable { detail: send_failure_detail(reason) },
            )
        },
        OutcomeView::Translated { translations } => if translations.len() > 0 {
            StepView::Deliver(trimmed(translations[0]))
        } else {
            StepView::Fail(ErrorView::NoTranslation)
        },
        OutcomeView::Unreadable { reason } => StepView::Fail(
            ErrorView::MalformedResponse { detail: reason },
        ),
        OutcomeView::Refused { status, status_line, body } => if is_retryable(status) && attempt
            < MAX_ATTEMPTS {
            StepView::RetryAfter { delay_ms: backoff_ms(attempt) }
        } else {
            StepView::Fail(refusal_error(status, refusal_detail(status_line, body)))
        },
    }
}

/// Decides what follows attempt number `attempt`, counted from one, which
/// ended in `outcome`.
pub fn next_step(attempt: u32, outcome: &AttemptOutcome) -> (step: NextStep)
    ensures
        step@ == decided(attempt, outcome@),
{
    match outcome {
        AttemptOutcome::SendFailed { reason } => {
            if attempt < MAX_ATTEMPTS {
                NextStep::RetryAfter { delay_ms: BACKOFF_BASE_MS * (attempt as u64) }
            } else {
                let mut detail = "DeepL request failed: ".to_owned();
                detail.append(reason.as_str());
                NextStep::Fail(TranslateError::TransientUnavailable { detail })
            }
        },
        AttemptOutcome::Translated { translations } => {
            if translations.len() > 0 {
                NextStep::Deliver(translations[0].as_str().trim().to_owned())
            } else {
                NextStep::Fail(TranslateError::NoTranslation)
            }
        },
        AttemptOutcome::Unreadable { reason } => NextStep::Fail(
            TranslateError::MalformedResponse { detail: reason.clone() },
        ),
        AttemptOutcome::Refused { status, status_line, body } => {
            if status_is_retryable(*status) && attempt < MAX_ATTEMPTS {
                NextStep::RetryAfter { delay_ms: BACKOFF_BASE_MS * (attempt as u64) }
            } else {
                let mut detail = "DeepL API error: ".to_owned();
                detail.append(status_line.as_str());
                detail.append(" - ");
                detail.append(body.as_str());
                if *status == STATUS_QUOTA_EXCEEDED {
                    NextStep::Fail(TranslateError::QuotaExceeded)
                } else if *status == STATUS_RATE_LIMITED {
                    NextStep::Fail(TranslateError::RateLimited { detail })
                } else if status_is_retryable(*status) {
                    NextStep::Fail(TranslateError::TransientUnavailable { detail })
                } else {
                    NextStep::Fail(TranslateError::BadRequest { detail })
                }
            }
        },
    }
}

/// How a translation went: the result, `None` while it is still open, and
/// the delays that were waited, in order.
pub struct RunView {
    pub result: Option<Result<Seq<char>, ErrorView>>,
    pub delays: Seq<u64>,
}

/// A translation whose attempts, starting with number `attempt`, end in
/// `outcomes` one after the other. Outcomes after the one that settles the
/// translation are not looked at.
pub open spec fn run_from(attempt: u32, outcomes: Seq<OutcomeView>) -> RunView
    decreases outcomes.len(),
{
    if outcomes.len() == 0 || attempt == u32::MAX {
        RunView { result: None, delays: Seq::empty() }
    } else {
        match decided(attempt, outcomes[0]) {
            StepView::Deliver(text) => RunView { result: Some(Ok(text)), delays: Seq::empty() },
            StepView::Fail(e) => RunView { result: Some(Err(e)), delays: Seq::empty() },
            StepView::RetryAfter { delay_ms } => {
                let rest = run_from((attempt + 1) as u32, outcomes.drop_first());
                RunView { result: rest.result, delays: seq![delay_ms] + rest.delays }
            },
        }
    }
}

/// Whether `outcome` is a failure that may pass.
pub open spec fn is_transient(outcome: OutcomeView) -> bool {
    match outcome {
        OutcomeView::SendFailed { .. } => true,
        OutcomeView::Refused { status, .. } => is_retryable(status),
        _ => false,
    }
}

/// Two failures that may pass followed by a success: the translation is
/// delivered, and exactly two delays were waited, the base and twice the
/// base.
pub proof fn lemma_third_attempt_delivers(
    first: OutcomeView,
    second: OutcomeView,
    translations: Seq<Seq<char>>,
)
    requires
        is_transient(first),
        is_transient(second),
        translations.len() > 0,
    ensures
        run_from(1, seq![first, second, OutcomeView::Translated { translations }]) == (RunView {
            result: Some(Ok(trimmed(translations[0]))),
            delays: seq![BACKOFF_BASE_MS, (2 * BACKOFF_BASE_MS) as u64],
        }),
{
    let third = OutcomeView::Translated { translations };
    let all = seq![first, second, third];
    let tail1 = all.drop_first();
    let tail2 = tail1.drop_first();
    assert(tail1 =~= seq![second, third]);
    assert(tail2 =~= seq![third]);
    assert(run_from(3, tail2).delays =~= Seq::<u64>::empty());
    assert(run_from(2, tail1).delays =~= seq![(2 * BACKOFF_BASE_MS) as u64]);
    assert(run_from(1, all).delays =~= seq![BACKOFF_BASE_MS, (2 * BACKOFF_BASE_MS) as u64]);
}

/// A translation is settled after at most [`MAX_ATTEMPTS`] attempts, and at
/// most one delay fewer was waited.
pub proof fn lemma_attempts_are_bounded(attempt: u32, outcomes: Seq<OutcomeView>)
    requires
        1 <= attempt <= MAX_ATTEMPTS,
    ensures
        run_from(attempt, outcomes).delays.len() <= MAX_ATTEMPTS - attempt,
        outcomes.len() > MAX_ATTEMPTS - attempt ==> run_from(attempt, outcomes).result is Some,
    decreases outcomes.len(),
{
    if outcomes.len() > 0 && attempt < MAX_ATTEMPTS {
        lemma_attempts_are_bounded((attempt + 1) as u32, outcomes.drop_first());
    }
}

/// An exhausted quota ends the translation at once, whatever the number of
/// the attempt.
pub proof fn lemma_quota_is_fatal(attempt: u32, status_line: Seq<char>, body: Seq<char>)
    ensures
        decided(
            attempt,
            OutcomeView::Refused { status: STATUS_QUOTA_EXCEEDED, status_line, body },
        ) == StepView::Fail(ErrorView::QuotaExceeded),
{
}

/// The outcomes of `v`, each by its value.
pub open spec fn outcome_views(v: Seq<AttemptOutcome>) -> Seq<OutcomeView> {
    Seq::new(v.len(), |i: int| v[i]@)
}

/// How a translation went, as [`replay`] reports it.
#[derive(Debug)]
pub struct Run {
    pub result: Option<Result<String, TranslateError>>,
    pub delays: Vec<u64>,
}

impl View for Run {
    type V = RunView;

    open spec fn view(&self) -> RunView {
        RunView {
            result: match self.result {
                Some(Ok(text)) => Some(Ok(text@)),
                Some(Err(e)) => Some(Err(e@)),
                None => None,
            },
            delays: self.delays@,
        }
    }
}

/// Runs the retry policy over attempts that end in `outcomes`, the first
/// being attempt number one, and reports the result and the delays that
/// the policy asked for.
pub fn replay(outcomes: &Vec<AttemptOutcome>) -> (run: Run)
    ensures
        run@ == run_from(1, outcome_views(outcomes@)),
{
    let ghost all = outcome_views(outcomes@);
    let mut delays: Vec<u64> = Vec::new();
    let mut attempt: u32 = 1;
    let mut i: usize = 0;
    proof {
        assert(all.skip(0) =~= all);
        assert(delays@ + run_from(1, all).delays =~= run_from(1, all).delays);
    }
    while i < outcomes.len()
        invariant
            0 <= i <= outcomes@.len(),
            all == outcome_views(outcomes@),
            1 <= attempt <= MAX_ATTEMPTS,
            run_from(1, all).result == run_from(attempt, all.skip(i as int)).result,
            run_from(1, all).delays == delays@ + run_from(attempt, all.skip(i as int)).delays,
        decreases outcomes@.len() - i,
    {
        let ghost rest = all.skip(i as int);
        proof {
            assert(rest[0] == outcomes@[i as int]@);
            assert(rest.drop_first() =~= all.skip(i + 1));
        }
        match next_step(attempt, &outcomes[i]) {
            NextStep::Deliver(text) => {
                assert(delays@ + Seq::<u64>::empty() =~= delays@);
                return Run { result: Some(Ok(text)), delays };
            },
            NextStep::Fail(e) => {
                assert(delays@ + Seq::<u64>::empty() =~= delays@);
                return Run { result: Some(Err(e)), delays };
            },
            NextStep::RetryAfter { delay_ms } => {
                let ghost before = delays@;
                delays.push(delay_ms);
                assert(before + (seq![delay_ms] + run_from(
                    (attempt + 1) as u32,
                    all.skip(i + 1),
                ).delays) =~= delays@ + run_from((attempt + 1) as u32, all.skip(i + 1)).delays);
                attempt = attempt + 1;
            },
        }
        i = i + 1;
    }
    proof {
        assert(all.skip(i as int) =~= Seq::<OutcomeView>::empty());
        assert(delays@ + Seq::<u64>::empty() =~= delays@);
    }
    Run { result: None, delays }
}

/// What is sent to the service for one translation.
#[derive(Debug)]
pub struct TranslationRequest {
    pub url: String,
    pub authorization: String,
    pub text: String,
    pub source_lang: String,
    pub target_lang: String,
}

/// Mathematical value of a [`TranslationRequest`].
pub struct RequestView {
    pub url: Seq<char>,
    pub authorization: Seq<char>,
    pub text: Seq<char>,
    pub source_lang: Seq<char>,
    pub target_lang: Seq<char>,
}

impl View for TranslationRequest {
    type V = RequestView;

    open spec fn view(&self) -> RequestView {
        RequestView {
            url: self.url@,
            authorization: self.authorization@,
            text: self.text@,
            source_lang: self.source_lang@,
            target_lang: self.target_lang@,
        }
    }
}

/// What a translation starts with.
#[derive(Debug)]
pub enum Preparation {
    /// Nothing is left of the text: its translation is the empty text, and
    /// nothing is sent.
    Nothing,
    /// This request is sent.
    Send(TranslationRequest),
}

/// The normalized form of a language name: trimmed, in lowercase.
pub open spec fn normalized_language(lang: Seq<char>) -> Seq<char> {
    lowercase_of(trimmed(lang))
}

impl Translator {
    /// The request for `text` from `source_lang` into `target_lang`.
    pub open spec fn request_for(
        &self,
        text: Seq<char>,
        source_lang: Seq<char>,
        target_lang: Seq<char>,
    ) -> RequestView {
        RequestView {
            url: self.api_base@ + "/v2/translate"@,
            authorization: "DeepL-Auth-Key "@ + self.api_key@,
            text: sanitized(text),
            source_lang: service_code(normalized_language(source_lang)).unwrap(),
            target_lang: service_code(normalized_language(target_lang)).unwrap(),
        }
    }

    /// Starts a translation: sanitizes `text` and, unless nothing but
    /// whitespace is left of it, maps both languages and builds the request.
    /// The source language is looked at first.
    pub fn prepare(&self, text: &str, source_lang: &str, target_lang: &str) -> (r: Result<
        Preparation,
        TranslateError,
    >)
        ensures
            trimmed(sanitized(text@)).len() == 0 ==> r matches Ok(Preparation::Nothing),
            trimmed(sanitized(text@)).len() > 0 ==> (match r {
                Ok(Preparation::Send(request)) => service_code(normalized_language(source_lang@))
                    is Some && service_code(normalized_language(target_lang@)) is Some && request@
                    == self.request_for(text@, source_lang@, target_lang@),
                Ok(Preparation::Nothing) => false,
                Err(TranslateError::UnsupportedLanguage { code }) => if service_code(
                    normalized_language(source_lang@),
                ) is None {
                    code@ == source_lang@
                } else {
                    service_code(normalized_language(target_lang@)) is None && code@
                        == target_lang@
                },
                Err(_) => false,
            }),
    {
        let clean = self.sanitize_input(text);
        if clean.as_str().trim().is_empty() {
            return Ok(Preparation::Nothing);
        }
        let source_code = match self.map_language_code(source_lang) {
            Ok(code) => code,
            Err(e) => {
                return Err(e);
            },
        };
        let target_code = match self.map_language_code(target_lang) {
            Ok(code) => code,
            Err(e) => {
                return Err(e);
            },
        };
        let mut url = self.api_base.clone();
        url.append("/v2/translate");
        let mut authorization = "DeepL-Auth-Key ".to_owned();
        authorization.append(self.api_key.as_str());
        Ok(
            Preparation::Send(
                TranslationRequest {
                    url,
                    authorization,
                    text: clean,
                    source_lang: source_code,
                    target_lang: target_code,
                },
            ),
        )
    }
}

/// The error in words.
pub open spec fn error_message(e: ErrorView) -> Seq<char> {
    match e {
        ErrorView::UnsupportedLanguage { code } => "Unsupported language code: "@ + code,
        ErrorView::RateLimited { detail } => detail,
        ErrorView::TransientUnavailable { detail } => detail,
        ErrorView::QuotaExceeded => "DeepL API quota exceeded (456)"@,
        ErrorView::BadRequest { detail } => detail,
        ErrorView::MalformedResponse { detail } => detail,
        ErrorView::NoTranslation => "No translation returned from DeepL API"@,
    }
}

impl TranslateError {
    /// The error in words.
    pub fn message(&self) -> (text: String)
        ensures
            text@ == error_message(self@),
    {
        match self {
            TranslateError::UnsupportedLanguage { code } => {
                let mut text = "Unsupported language code: ".to_owned();
                text.append(code.as_str());
                text
            },
            TranslateError::RateLimited { detail } => detail.clone(),
            TranslateError::TransientUnavailable { detail } => detail.clone(),
            TranslateError::QuotaExceeded => "DeepL API quota exceeded (456)".to_owned(),
            TranslateError::BadRequest { detail } => detail.clone(),
            TranslateError::MalformedResponse { detail } => detail.clone(),
            TranslateError::NoTranslation => "No translation returned from DeepL API".to_owned(),
        }
    }

    /// Whether the quota of the account is used up.
    pub fn is_quota_exceeded(&self) -> (r: bool)
        ensures
            r == (self@ is QuotaExceeded),
    {
        match self {
            TranslateError::QuotaExceeded => true,
            _ => false,
        }
    }
}

} // verus!
