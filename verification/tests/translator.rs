use voice_relay::translator::{
    next_step, replay, status_is_retryable, status_is_success, AttemptOutcome, NextStep,
    Preparation, TranslateError, Translator, BACKOFF_BASE_MS, MAX_ATTEMPTS,
};

#[test]
fn test_detect_language_japanese() {
    let text = "こんにちは世界";
    assert_eq!(Translator::detect_language_local(text), "Japanese");
}

#[test]
fn test_detect_language_english() {
    let text = "Hello World";
    assert_eq!(Translator::detect_language_local(text), "English");
}

#[test]
fn test_sanitize_input() {
    let translator = Translator::new("test:fx".to_string());

    // Test HTML escaping
    assert_eq!(translator.sanitize_input("<script>"), "&lt;script&gt;");

    // Test length limit
    let long_text = "a".repeat(3000);
    assert_eq!(translator.sanitize_input(&long_text).len(), 2000);

    // Test control character removal
    assert_eq!(translator.sanitize_input("hello\x00world"), "helloworld");
}

#[test]
fn test_language_mapping() {
    let translator = Translator::new("test:fx".to_string());
    assert_eq!(translator.map_language_code("ja").unwrap(), "JA");
    assert_eq!(translator.map_language_code("ko").unwrap(), "KO");
    assert_eq!(translator.map_language_code("en").unwrap(), "EN-US");
    assert_eq!(translator.map_language_code("en-us").unwrap(), "EN-US");
    assert_eq!(translator.map_language_code("en-gb").unwrap(), "EN-GB");
}

#[test]
fn language_mapping_ignores_case_and_spaces() {
    let translator = Translator::new("k".to_string());
    assert_eq!(translator.map_language_code("  Japanese\n").unwrap(), "JA");
    assert_eq!(translator.map_language_code("KOREAN").unwrap(), "KO");
    assert_eq!(translator.map_language_code("jp").unwrap(), "JA");
    assert_eq!(translator.map_language_code("kr").unwrap(), "KO");
    assert_eq!(translator.map_language_code("English").unwrap(), "EN-US");
    assert_eq!(translator.map_language_code("en_US").unwrap(), "EN-US");
    assert_eq!(translator.map_language_code("EN_GB").unwrap(), "EN-GB");
    match translator.map_language_code(" fr ") {
        Err(TranslateError::UnsupportedLanguage { code }) => assert_eq!(code, " fr "),
        other => panic!("unexpected {:?}", other),
    }
    assert!(translator.map_language_code("").is_err());
}

#[test]
fn api_base_follows_key() {
    assert_eq!(Translator::new("abc:fx".to_string()).api_base, "https://api-free.deepl.com");
    assert_eq!(Translator::new("abc:fx \n".to_string()).api_base, "https://api-free.deepl.com");
    assert_eq!(Translator::new(" abc:fx".to_string()).api_base, "https://api-free.deepl.com");
    assert_eq!(Translator::new("abc".to_string()).api_base, "https://api.deepl.com");
    assert_eq!(Translator::new("abc:fx:".to_string()).api_base, "https://api.deepl.com");
    assert_eq!(Translator::new("fx".to_string()).api_base, "https://api.deepl.com");
    assert_eq!(Translator::new("".to_string()).api_base, "https://api.deepl.com");
    assert_eq!(Translator::new("abc:fx".to_string()).api_key, "abc:fx");
}

#[test]
fn sanitize_keeps_newline_and_tab_and_cuts_before_escaping() {
    let t = Translator::new("k".to_string());
    assert_eq!(t.sanitize_input("a\nb\tc\r\u{7f}d\u{85}"), "a\nb\tcd");
    assert_eq!(t.sanitize_input(""), "");
    assert_eq!(t.sanitize_input("1 < 2 > 0 &"), "1 &lt; 2 &gt; 0 &");
    let many = "<".repeat(2500);
    assert_eq!(t.sanitize_input(&many), "&lt;".repeat(2000));
    let mixed = format!("{}{}", "\u{0}".repeat(100), "é".repeat(2001));
    assert_eq!(t.sanitize_input(&mixed), "é".repeat(2000));
}

#[test]
fn detect_language_threshold() {
    assert_eq!(Translator::detect_language_local(""), "English");
    assert_eq!(Translator::detect_language_local("あaaaaaaaaa"), "English");
    assert_eq!(Translator::detect_language_local("あaaaaaaaa"), "Japanese");
    assert_eq!(Translator::detect_language_local("カタカナ"), "Japanese");
    assert_eq!(Translator::detect_language_local("漢字"), "Japanese");
    assert_eq!(Translator::detect_language_local("한국어"), "English");
}

fn refused(status: u16) -> AttemptOutcome {
    AttemptOutcome::Refused {
        status,
        status_line: format!("{} Status", status),
        body: "body".to_string(),
    }
}

fn translated(texts: &[&str]) -> AttemptOutcome {
    let mut translations = Vec::new();
    for t in texts {
        translations.push(t.to_string());
    }
    AttemptOutcome::Translated { translations }
}

#[test]
fn third_attempt_succeeds_after_two_backoffs() {
    let outcomes = vec![refused(503), refused(429), translated(&["  こんにちは \n", "other"])];
    let run = replay(&outcomes);
    assert_eq!(run.delays, vec![200, 400]);
    assert_eq!(run.delays.len(), 2);
    match run.result {
        Some(Ok(text)) => assert_eq!(text, "こんにちは"),
        other => panic!("unexpected {:?}", other),
    }
}

#[test]
fn transport_failures_are_retried_too() {
    let outcomes = vec![
        AttemptOutcome::SendFailed { reason: "timeout".to_string() },
        AttemptOutcome::SendFailed { reason: "reset".to_string() },
        AttemptOutcome::SendFailed { reason: "refused".to_string() },
        translated(&["late"]),
    ];
    let run = replay(&outcomes);
    assert_eq!(run.delays, vec![BACKOFF_BASE_MS, 2 * BACKOFF_BASE_MS]);
    match run.result {
        Some(Err(TranslateError::TransientUnavailable { detail })) => {
            assert_eq!(detail, "DeepL request failed: refused")
        }
        other => panic!("unexpected {:?}", other),
    }
}

#[test]
fn quota_exceeded_is_not_retried() {
    let run = replay(&vec![refused(456), translated(&["never"])]);
    assert!(run.delays.is_empty());
    assert!(matches!(run.result, Some(Err(TranslateError::QuotaExceeded))));
    for attempt in 0..5 {
        assert!(matches!(
            next_step(attempt, &refused(456)),
            NextStep::Fail(TranslateError::QuotaExceeded)
        ));
    }
}

#[test]
fn bad_request_is_fatal() {
    let run = replay(&vec![refused(400)]);
    assert!(run.delays.is_empty());
    match run.result {
        Some(Err(TranslateError::BadRequest { detail })) => {
            assert_eq!(detail, "DeepL API error: 400 Status - body")
        }
        other => panic!("unexpected {:?}", other),
    }
    assert!(matches!(
        next_step(1, &refused(403)),
        NextStep::Fail(TranslateError::BadRequest { .. })
    ));
    assert!(matches!(
        next_step(1, &refused(501)),
        NextStep::Fail(TranslateError::BadRequest { .. })
    ));
}

#[test]
fn exhausted_retries_name_their_cause() {
    let run = replay(&vec![refused(429), refused(429), refused(429)]);
    assert_eq!(run.delays, vec![200, 400]);
    assert!(matches!(run.result, Some(Err(TranslateError::RateLimited { .. }))));
    let run = replay(&vec![refused(500), refused(502), refused(504)]);
    assert_eq!(run.delays, vec![200, 400]);
    match run.result {
        Some(Err(TranslateError::TransientUnavailable { detail })) => {
            assert_eq!(detail, "DeepL API error: 504 Status - body")
        }
        other => panic!("unexpected {:?}", other),
    }
}

#[test]
fn open_run_has_no_result() {
    let run = replay(&vec![]);
    assert!(run.result.is_none());
    assert!(run.delays.is_empty());
    let run = replay(&vec![refused(503)]);
    assert!(run.result.is_none());
    assert_eq!(run.delays, vec![200]);
}

#[test]
fn success_without_translation_fails() {
    assert!(matches!(
        next_step(1, &translated(&[])),
        NextStep::Fail(TranslateError::NoTranslation)
    ));
    match next_step(2, &AttemptOutcome::Unreadable { reason: "bad json".to_string() }) {
        NextStep::Fail(TranslateError::MalformedResponse { detail }) => {
            assert_eq!(detail, "bad json")
        }
        other => panic!("unexpected {:?}", other),
    }
    match next_step(3, &translated(&[" x "])) {
        NextStep::Deliver(text) => assert_eq!(text, "x"),
        other => panic!("unexpected {:?}", other),
    }
}

#[test]
fn delay_grows_with_attempt() {
    assert_eq!(MAX_ATTEMPTS, 3);
    match next_step(1, &refused(503)) {
        NextStep::RetryAfter { delay_ms } => assert_eq!(delay_ms, 200),
        other => panic!("unexpected {:?}", other),
    }
    match next_step(2, &refused(503)) {
        NextStep::RetryAfter { delay_ms } => assert_eq!(delay_ms, 400),
        other => panic!("unexpected {:?}", other),
    }
    assert!(matches!(next_step(3, &refused(503)), NextStep::Fail(_)));
    assert!(matches!(next_step(u32::MAX, &refused(503)), NextStep::Fail(_)));
}

#[test]
fn status_classes() {
    assert!(status_is_success(200));
    assert!(status_is_success(299));
    assert!(!status_is_success(199));
    assert!(!status_is_success(300));
    for s in [429u16, 500, 502, 503, 504] {
        assert!(status_is_retryable(s));
    }
    for s in [200u16, 400, 456, 501, 505] {
        assert!(!status_is_retryable(s));
    }
}

#[test]
fn prepare_builds_the_request() {
    let t = Translator::new("secret:fx".to_string());
    match t.prepare("Hello <b>", "English", "Japanese").unwrap() {
        Preparation::Send(r) => {
            assert_eq!(r.url, "https://api-free.deepl.com/v2/translate");
            assert_eq!(r.authorization, "DeepL-Auth-Key secret:fx");
            assert_eq!(r.text, "Hello &lt;b&gt;");
            assert_eq!(r.source_lang, "EN-US");
            assert_eq!(r.target_lang, "JA");
        }
        other => panic!("unexpected {:?}", other),
    }
}

#[test]
fn prepare_skips_blank_text_and_reports_languages() {
    let t = Translator::new("k".to_string());
    assert!(matches!(t.prepare("  \n\t ", "xx", "yy"), Ok(Preparation::Nothing)));
    assert!(matches!(t.prepare("\u{0}\u{1}", "ja", "en"), Ok(Preparation::Nothing)));
    match t.prepare("hi", "xx", "yy") {
        Err(TranslateError::UnsupportedLanguage { code }) => assert_eq!(code, "xx"),
        other => panic!("unexpected {:?}", other),
    }
    match t.prepare("hi", "ja", "yy") {
        Err(TranslateError::UnsupportedLanguage { code }) => assert_eq!(code, "yy"),
        other => panic!("unexpected {:?}", other),
    }
}

#[test]
fn error_messages() {
    assert_eq!(TranslateError::QuotaExceeded.message(), "DeepL API quota exceeded (456)");
    assert_eq!(TranslateError::NoTranslation.message(), "No translation returned from DeepL API");
    assert_eq!(
        TranslateError::UnsupportedLanguage { code: "xx".to_string() }.message(),
        "Unsupported language code: xx"
    );
    assert_eq!(TranslateError::BadRequest { detail: "d".to_string() }.message(), "d");
    assert_eq!(TranslateError::RateLimited { detail: "r".to_string() }.message(), "r");
    assert_eq!(TranslateError::TransientUnavailable { detail: "t".to_string() }.message(), "t");
    assert_eq!(TranslateError::MalformedResponse { detail: "m".to_string() }.message(), "m");
    assert!(TranslateError::QuotaExceeded.is_quota_exceeded());
    assert!(!TranslateError::NoTranslation.is_quota_exceeded());
}
