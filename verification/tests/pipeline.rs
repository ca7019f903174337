use voice_relay::pipeline::{
    conclude_utterance, source_field_name, plan_translation, plan_utterance, present,
    sweep_step, translation_field_name, SweepStep, PRESENTATION_COLOR, QUOTA_NOTICE,
    SWEEP_INTERVAL_MS,
};
use voice_relay::translator::TranslateError;
use voice_relay::translation::{TranslationManager, TranslationPair};
use voice_relay::user_settings::UserLanguageSetting;

#[test]
fn sweep_stops_without_session() {
    let mut m = TranslationManager::new();
    assert!(matches!(sweep_step(&mut m, 1, 0), SweepStep::Stop));
    m.start_translation(1, 2, TranslationPair::new("ja", "en"), 0).unwrap();
    m.add_audio_to_session(1, 5, 50, &vec![1i16; 24000], 0);
    match sweep_step(&mut m, 1, 1000) {
        SweepStep::Dispatch { utterances, sleep_ms } => {
            assert!(utterances.is_empty());
            assert_eq!(sleep_ms, 500);
        }
        SweepStep::Stop => panic!("the session is active"),
    }
    match sweep_step(&mut m, 1, 1501) {
        SweepStep::Dispatch { utterances, sleep_ms } => {
            assert_eq!(utterances.len(), 1);
            assert_eq!(utterances[0].0, 50);
            assert_eq!(utterances[0].1.len(), 24000);
            assert_eq!(sleep_ms, SWEEP_INTERVAL_MS);
        }
        SweepStep::Stop => panic!("the session is active"),
    }
    m.stop_translation(1);
    assert!(matches!(sweep_step(&mut m, 1, 5000), SweepStep::Stop));
}

#[test]
fn utterances_without_setting_or_length_are_skipped() {
    let setting = UserLanguageSetting::new("ko", "ja");
    let audio: Vec<i16> = (0..24000).map(|i| (i % 7) as i16 * 1000).collect();
    assert!(plan_utterance(None, 1, &audio).is_none());
    assert!(plan_utterance(Some(&setting), 1, &audio[..23999]).is_none());
    let job = plan_utterance(Some(&setting), 1, &audio).unwrap();
    assert_eq!(job.speaker, 1);
    assert_eq!(job.language_hint, "ko");
    assert_eq!(job.samples.len(), 8000);
    assert_eq!(job.samples[1], audio[3]);
    assert_eq!(job.duration_ms, 500);
    assert!(!job.low_energy);
    let quiet = vec![0i16; 60000];
    let job = plan_utterance(Some(&setting), 2, &quiet).unwrap();
    assert!(job.low_energy);
    assert_eq!(job.duration_ms, 1250);
    assert_eq!(job.samples.len(), 20000);
}

#[test]
fn recognized_text_goes_on_unless_blank_or_noise() {
    let setting = UserLanguageSetting::new("ja", "ko");
    assert!(plan_translation(&setting, "", 2000, false).is_none());
    assert!(plan_translation(&setting, " \n", 2000, false).is_none());
    assert!(plan_translation(&setting, "ご視聴ありがとうございました", 800, false).is_none());
    assert!(plan_translation(&setting, "ご視聴ありがとうございました", 2000, true).is_none());
    let order = plan_translation(&setting, "ご視聴ありがとうございました", 2000, false).unwrap();
    assert_eq!(order.text, "ご視聴ありがとうございました");
    let order = plan_translation(&setting, " こんにちは ", 100, true).unwrap();
    assert_eq!(order.text, " こんにちは ");
    assert_eq!(order.source_lang, "Japanese");
    assert_eq!(order.target_lang, "Korean");
}

#[test]
fn presentation_layout() {
    let setting = UserLanguageSetting::new("ja", "en");
    let p = present(&setting, "原文".to_string(), "text".to_string());
    assert_eq!(p.title, "Real-time Translation");
    assert_eq!(p.color, 0x3498db);
    assert_eq!(p.color, PRESENTATION_COLOR);
    assert_eq!(p.source.name, "🗣️ Original (JA)");
    assert_eq!(p.source.value, "原文");
    assert_eq!(p.translation.name, "🌐 Translation (EN)");
    assert_eq!(p.translation.value, "text");
}

#[test]
fn field_names() {
    assert_eq!(source_field_name("KO"), "🗣️ Original (KO)");
    assert_eq!(translation_field_name(""), "🌐 Translation ()");
}

#[test]
fn quota_failure_still_shows_the_transcript() {
    let setting = UserLanguageSetting::new("ja", "en");
    let shown = conclude_utterance(&setting, "原文".to_string(), Ok("text".to_string())).unwrap();
    assert_eq!(shown.translation.value, "text");
    let degraded =
        conclude_utterance(&setting, "原文".to_string(), Err(TranslateError::QuotaExceeded)).unwrap();
    assert_eq!(degraded.source.value, "原文");
    assert_eq!(degraded.source.name, "🗣️ Original (JA)");
    assert_eq!(degraded.translation.value, QUOTA_NOTICE);
    let dropped = conclude_utterance(
        &setting,
        "原文".to_string(),
        Err(TranslateError::RateLimited { detail: "slow down".to_string() }),
    );
    assert!(dropped.is_none());
    assert!(conclude_utterance(&setting, "x".to_string(), Err(TranslateError::NoTranslation)).is_none());
}
