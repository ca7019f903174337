use voice_relay::minutes::{
    conclude, degraded_message, label_lines, minutes_message, report_summary,
    speaker_display_name, transcript_message, MeetingConclusion, MeetingTranscript, MemberName,
};

#[test]
fn lines_are_labelled() {
    assert_eq!(label_lines("Ann", "hello"), "**[Ann]**: hello");
    assert_eq!(label_lines("Ann", "a\nb"), "**[Ann]**: a\n**[Ann]**: b");
    assert_eq!(label_lines("Ann", "a\r\nb\n"), "**[Ann]**: a\n**[Ann]**: b");
    assert_eq!(label_lines("Ann", "a\n\nb"), "**[Ann]**: a\n**[Ann]**: \n**[Ann]**: b");
    assert_eq!(label_lines("Ann", ""), "");
    assert_eq!(label_lines("Ann", "\n"), "**[Ann]**: ");
    assert_eq!(label_lines("Ann", "a\r"), "**[Ann]**: a\r");
    assert_eq!(label_lines("Ann", "a\r\r\n"), "**[Ann]**: a\r");
    assert_eq!(label_lines("", "x"), "**[]**: x");
}

#[test]
fn labelling_agrees_with_std_lines() {
    for text in ["", "one", "one\ntwo", "one\r\ntwo\r\n", "\n\n", "\r\n\r", "a\rb\nc", "x\n\r\ny"] {
        let expected = text
            .lines()
            .map(|line| format!("**[{}]**: {}", "N", line))
            .collect::<Vec<_>>()
            .join("\n");
        assert_eq!(label_lines("N", text), expected);
    }
}

#[test]
fn speaker_names() {
    let with_nick = MemberName { nick: Some("Annie".to_string()), name: "ann".to_string() };
    let without = MemberName { nick: None, name: "bob".to_string() };
    assert_eq!(speaker_display_name(Some(5), Some(&with_nick)), "Annie (ann)");
    assert_eq!(speaker_display_name(Some(5), Some(&without)), "bob");
    assert_eq!(speaker_display_name(Some(5), None), "User 5");
    assert_eq!(speaker_display_name(Some(u64::MAX), None), "User 18446744073709551615");
    assert_eq!(speaker_display_name(None, Some(&with_nick)), "Unknown Speaker");
    assert_eq!(speaker_display_name(None, None), "Unknown Speaker");
}

#[test]
fn transcript_grows_and_failures_do_not_abort() {
    let mut t = MeetingTranscript::new();
    assert_eq!(conclude(0, &t), MeetingConclusion::NothingRecorded);
    assert_eq!(conclude(2, &t), MeetingConclusion::NothingHeard);
    t.add_transcription(Some("Ann"), "hi\nthere");
    t.add_failure("out/1_2_x.wav", "model failure");
    t.add_transcription(Some("Bob"), "");
    t.add_transcription(None, "plain");
    assert_eq!(t.full_transcript, "**[Ann]**: hi\n**[Ann]**: there\n\nplain\n\n");
    assert_eq!(t.transcription_errors, vec!["File out/1_2_x.wav: model failure".to_string()]);
    assert_eq!(conclude(2, &t), MeetingConclusion::Summarize);
    assert_eq!(conclude(0, &t), MeetingConclusion::NothingRecorded);
}

#[test]
fn messages() {
    assert_eq!(minutes_message("M"), "✅ **Meeting Minutes Generated**\n\nM");
    assert_eq!(transcript_message("T"), "📝 **Full Transcription**\n```\nT\n```");
    let long = "字".repeat(3000);
    let shown = transcript_message(&long);
    assert_eq!(shown.chars().filter(|c| *c == '字').count(), 1950);
    let degraded = degraded_message(&long, "boom");
    assert_eq!(degraded.chars().filter(|c| *c == '字').count(), 1900);
    assert_eq!(
        degraded_message("T", "E"),
        "⚠️ **Transcription completed but summarization failed**\n\n**Raw Transcription:**\n```\nT\n```\n\nError: E"
    );
}

#[test]
fn summary_failure_degrades_to_the_raw_transcript() {
    let ok = report_summary("T", Ok("M".to_string()));
    assert_eq!(
        ok,
        vec![
            "📝 **Full Transcription**\n```\nT\n```".to_string(),
            "✅ **Meeting Minutes Generated**\n\nM".to_string()
        ]
    );
    let failed = report_summary("T", Err("E".to_string()));
    assert_eq!(failed.len(), 1);
    assert!(failed[0].contains("**Raw Transcription:**\n```\nT\n```"));
    assert!(failed[0].ends_with("Error: E"));
}
