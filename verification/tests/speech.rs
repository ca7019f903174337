use voice_relay::audio::{downsample_48k_to_16k, duration_ms, is_low_energy};
use voice_relay::speech::{
    detect_language_local, empty_recognition, get_lang_str_from_id, is_likely_hallucination,
    join_segments, normalize, plan_recognition, readable, recognizer_input,
    recognizer_input_from_wav, resolve_language, spoken_segments, RecognitionPlan, WavInputError,
    LANGUAGE_CODES,
};

#[test]
fn language_ids() {
    assert_eq!(get_lang_str_from_id(0), "en");
    assert_eq!(get_lang_str_from_id(1), "zh");
    assert_eq!(get_lang_str_from_id(5), "ko");
    assert_eq!(get_lang_str_from_id(7), "ja");
    assert_eq!(get_lang_str_from_id(93), "haw");
    assert_eq!(get_lang_str_from_id(98), "su");
    assert_eq!(get_lang_str_from_id(99), "en");
    assert_eq!(get_lang_str_from_id(-1), "en");
    assert_eq!(get_lang_str_from_id(i32::MIN), "en");
    assert_eq!(get_lang_str_from_id(i32::MAX), "en");
    assert_eq!(LANGUAGE_CODES.len(), 99);
}

#[test]
fn local_detection_gives_codes() {
    assert_eq!(detect_language_local("こんにちは世界"), "ja");
    assert_eq!(detect_language_local("Hello World"), "en");
    assert_eq!(detect_language_local(""), "en");
    assert_eq!(detect_language_local("aaaaaaaaaあ"), "en");
    assert_eq!(detect_language_local("aaaaaaaaあ"), "ja");
}

#[test]
fn resolve_language_prefers_detection() {
    assert_eq!(resolve_language(Some(7), "hello"), "ja");
    assert_eq!(resolve_language(Some(500), "こんにちは"), "en");
    assert_eq!(resolve_language(None, "こんにちは"), "ja");
    assert_eq!(resolve_language(None, "hello"), "en");
}

#[test]
fn recognition_plan() {
    assert!(matches!(plan_recognition(0, Some("ja")), RecognitionPlan::Skip));
    assert!(matches!(plan_recognition(0, None), RecognitionPlan::Skip));
    assert!(matches!(plan_recognition(10, None), RecognitionPlan::Detect));
    match plan_recognition(10, Some("ko")) {
        RecognitionPlan::Transcribe { language } => assert_eq!(language, "ko"),
        other => panic!("unexpected {:?}", other),
    }
    let (text, lang) = empty_recognition();
    assert_eq!(text, "");
    assert_eq!(lang, "en");
}

#[test]
fn segments_are_joined_with_spaces() {
    let segs = vec![
        " Hello".to_string(),
        "   ".to_string(),
        "world ".to_string(),
        "".to_string(),
        "\u{3000}".to_string(),
    ];
    assert_eq!(join_segments(&segs), "Hello world");
    assert_eq!(join_segments(&vec![]), "");
    assert_eq!(join_segments(&vec![" ".to_string()]), "");
    assert_eq!(join_segments(&vec!["a".to_string(), "b".to_string()]), "a b");
}

#[test]
fn blank_timed_segments_are_dropped() {
    let segs = vec![
        (0i64, 10i64, "one".to_string()),
        (10, 20, "  ".to_string()),
        (20, 30, " two ".to_string()),
        (30, 40, "".to_string()),
    ];
    let kept = spoken_segments(segs);
    assert_eq!(kept, vec![(0i64, 10i64, "one".to_string()), (20, 30, " two ".to_string())]);
    assert!(spoken_segments(vec![]).is_empty());
}

#[test]
fn hallucination_needs_short_or_weak_audio_and_a_filler() {
    assert!(is_likely_hallucination("ご視聴ありがとうございました", 500, false));
    assert!(is_likely_hallucination("ご視聴ありがとうございました", 5000, true));
    assert!(!is_likely_hallucination("ご視聴ありがとうございました", 5000, false));
    assert!(!is_likely_hallucination("ご視聴ありがとうございました", 1200, false));
    assert!(is_likely_hallucination("ご視聴ありがとうございました", 1199, false));
    assert!(!is_likely_hallucination("こんにちは", 100, true));
    assert!(!is_likely_hallucination("", 100, true));
    assert!(is_likely_hallucination(" お疲れ 様で した。 ", 100, false));
    assert!(is_likely_hallucination("本日は、おつかれさまでした！！", 100, false));
    assert!(is_likely_hallucination("ごしちょう？ありがとう!ございました?", 0, false));
    assert!(!is_likely_hallucination("お疲れ様です", 0, true));
}

#[test]
fn normalization_drops_spaces_and_marks() {
    let n: String = normalize(" a　b。c、d！e!f？g?h\n").into_iter().collect();
    assert_eq!(n, "abcdefgh");
    assert!(normalize("").is_empty());
}

#[test]
fn downsampling_keeps_every_third_sample() {
    assert_eq!(downsample_48k_to_16k(&[]), Vec::<i16>::new());
    assert_eq!(downsample_48k_to_16k(&[5]), vec![5]);
    assert_eq!(downsample_48k_to_16k(&[5, 6]), vec![5]);
    assert_eq!(downsample_48k_to_16k(&[5, 6, 7]), vec![5]);
    assert_eq!(downsample_48k_to_16k(&[5, 6, 7, 8]), vec![5, 8]);
    assert_eq!(downsample_48k_to_16k(&[0, 1, 2, 3, 4, 5, 6, 7, 8]), vec![0, 3, 6]);
    let long: Vec<i16> = (0..30000).map(|i| (i % 3000) as i16).collect();
    let out = downsample_48k_to_16k(&long);
    assert_eq!(out.len(), 10000);
    assert_eq!(out[9999], long[29997]);
}

#[test]
fn durations() {
    assert_eq!(duration_ms(0, 48000), 0);
    assert_eq!(duration_ms(24000, 48000), 500);
    assert_eq!(duration_ms(57599, 48000), 1199);
    assert_eq!(duration_ms(57600, 48000), 1200);
    assert_eq!(duration_ms(16000, 16000), 1000);
    assert_eq!(duration_ms(47, 48000), 0);
    assert_eq!(duration_ms(usize::MAX, 1), u64::MAX);
}

#[test]
fn energy_threshold() {
    assert!(is_low_energy(&[]));
    assert!(is_low_energy(&[0, 0, 0]));
    assert!(is_low_energy(&[327]));
    assert!(!is_low_energy(&[328]));
    assert!(is_low_energy(&[-327, 327]));
    assert!(is_low_energy(&[-328, 0, 328, 400]));
    assert!(!is_low_energy(&[-328, 328, 400]));
    assert!(is_low_energy(&[463, 0]));
    assert!(!is_low_energy(&[464, 0]));
    assert!(!is_low_energy(&[i16::MIN; 100]));
}

#[test]
fn unreadable_samples_are_left_out() {
    assert_eq!(readable(&vec![Some(1), None, Some(-2), None]), vec![1, -2]);
    assert!(readable(&vec![]).is_empty());
    assert!(readable(&vec![None, None]).is_empty());
}

#[test]
fn recognizer_input_by_rate() {
    assert_eq!(recognizer_input(48000, vec![1, 2, 3, 4]), Ok(vec![1, 4]));
    assert_eq!(recognizer_input(16000, vec![1, 2, 3, 4]), Ok(vec![1, 2, 3, 4]));
    assert_eq!(
        recognizer_input(44100, vec![1, 2, 3, 4]),
        Err(WavInputError::UnsupportedSampleRate { rate: 44100 })
    );
    assert_eq!(
        recognizer_input(0, vec![]),
        Err(WavInputError::UnsupportedSampleRate { rate: 0 })
    );
}

fn wav(rate: u32, samples: &[i16]) -> Vec<u8> {
    let spec = hound::WavSpec {
        channels: 1,
        sample_rate: rate,
        bits_per_sample: 16,
        sample_format: hound::SampleFormat::Int,
    };
    let mut cursor = std::io::Cursor::new(Vec::new());
    {
        let mut writer = hound::WavWriter::new(&mut cursor, spec).unwrap();
        for s in samples {
            writer.write_sample(*s).unwrap();
        }
        writer.finalize().unwrap();
    }
    cursor.into_inner()
}

#[test]
fn recognizer_input_from_stored_artifacts() {
    let samples = [10i16, -20, 30, -40, 50, -60, 70];
    assert_eq!(recognizer_input_from_wav(&wav(48000, &samples)), Ok(vec![10, -40, 70]));
    assert_eq!(recognizer_input_from_wav(&wav(16000, &samples)), Ok(samples.to_vec()));
    assert_eq!(
        recognizer_input_from_wav(&wav(44100, &samples)),
        Err(WavInputError::UnsupportedSampleRate { rate: 44100 })
    );
    assert_eq!(recognizer_input_from_wav(&wav(48000, &[])), Ok(vec![]));
    assert_eq!(recognizer_input_from_wav(b"not a wave file"), Err(WavInputError::Unreadable));
    assert_eq!(recognizer_input_from_wav(&[]), Err(WavInputError::Unreadable));
}

#[test]
fn truncated_artifact_keeps_what_can_be_read() {
    let mut bytes = wav(16000, &[1, 2, 3, 4]);
    bytes.truncate(bytes.len() - 3);
    assert_eq!(recognizer_input_from_wav(&bytes), Ok(vec![1, 2]));
}
