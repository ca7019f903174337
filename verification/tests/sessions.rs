use voice_relay::events::{TickEntry, VoiceEvent};
use voice_relay::recording::{RecordingManager, VoiceReceiveHandler};
use voice_relay::registry::{SessionMode, SessionRegistry, StoppedSession};
use voice_relay::translation::{
    SessionError, TranslationManager, TranslationPair, VoiceTranslateHandler,
};

#[test]
fn start_twice_fails_and_keeps_session() {
    let mut m = TranslationManager::new();
    assert_eq!(m.start_translation(1, 2, TranslationPair::new("ja", "en"), 100), Ok(()));
    m.add_audio_to_session(1, 5, 50, &[1, 2, 3], 200);
    let again = m.start_translation(1, 9, TranslationPair::new("ko", "ja"), 300);
    assert_eq!(again, Err(SessionError::AlreadyActive));
    let s = m.active_sessions.get(&1).unwrap();
    assert_eq!(s.channel_id, 2);
    assert_eq!(s.start_time, 100);
    assert_eq!(s.translation_pair.source_lang, "ja");
    assert_eq!(s.speaker_buffers.get(&50).unwrap().samples, vec![1, 2, 3]);
}

#[test]
fn stop_without_session_is_none() {
    let mut m = TranslationManager::new();
    assert!(m.stop_translation(1).is_none());
    assert!(!m.is_translating(1));
    m.start_translation(1, 2, TranslationPair::new("ja", "en"), 0).unwrap();
    assert!(m.is_translating(1));
    let s = m.stop_translation(1).unwrap();
    assert_eq!(s.guild_id, 1);
    assert!(!m.is_translating(1));
    assert!(m.stop_translation(1).is_none());
}

#[test]
fn audio_without_session_is_dropped() {
    let mut m = TranslationManager::new();
    m.add_audio_to_session(1, 5, 50, &[1, 2, 3], 0);
    assert!(m.active_sessions.is_empty());
    assert!(m.get_ready_translations(1, 10_000).is_empty());
}

#[test]
fn manager_sweeps_its_session() {
    let mut m = TranslationManager::new();
    m.start_translation(1, 2, TranslationPair::new("ja", "en"), 0).unwrap();
    let audio = vec![3i16; 24000];
    m.add_audio_to_session(1, 5, 50, &audio, 0);
    assert!(m.get_ready_translations(1, 1500).is_empty());
    let ready = m.get_ready_translations(1, 1501);
    assert_eq!(ready, vec![(50u64, audio)]);
}

#[test]
fn recording_manager_start_stop() {
    let mut m = RecordingManager::new("./recordings".to_string());
    assert!(!m.is_recording(4));
    assert_eq!(m.start_recording(4, 5, 77), Ok(()));
    assert!(m.is_recording(4));
    m.add_audio_to_session(4, 9, &[1, 2]);
    assert_eq!(m.start_recording(4, 6, 88), Err(SessionError::AlreadyActive));
    m.add_audio_to_session(4, 9, &[3]);
    m.add_audio_to_session(5, 9, &[3]);
    let s = m.stop_recording(4).unwrap();
    assert_eq!(s.channel_id, 5);
    assert_eq!(s.start_time, 77);
    assert_eq!(s.output_dir, "./recordings");
    assert_eq!(s.speaker_buffers.get(&9).unwrap(), &vec![1i16, 2, 3]);
    assert!(m.stop_recording(4).is_none());
    assert!(m.stop_recording(5).is_none());
}

#[test]
fn registry_allows_one_session_per_scope() {
    let mut r = SessionRegistry::new("out".to_string());
    assert!(!r.is_active(1));
    assert_eq!(r.active_mode(1), None);
    assert_eq!(r.start(1, 10, SessionMode::Capturing, 0), Ok(()));
    assert_eq!(r.active_mode(1), Some(SessionMode::Capturing));
    assert_eq!(r.start(1, 11, SessionMode::Translating, 5), Err(SessionError::AlreadyActive));
    assert_eq!(r.start(1, 11, SessionMode::Capturing, 5), Err(SessionError::AlreadyActive));
    assert_eq!(r.active_mode(1), Some(SessionMode::Capturing));
    assert_eq!(r.recorder().active_sessions.get(&1).unwrap().channel_id, 10);
    assert_eq!(r.start(2, 20, SessionMode::Translating, 0), Ok(()));
    assert_eq!(r.active_mode(2), Some(SessionMode::Translating));
    assert_eq!(r.start_capture(2, 20, 0), Err(SessionError::AlreadyActive));
    let pair = &r.translator().active_sessions.get(&2).unwrap().translation_pair;
    assert_eq!(pair.source_lang, "ja");
    assert_eq!(pair.target_lang, "en");
}

#[test]
fn registry_stop_reports_no_session() {
    let mut r = SessionRegistry::new("out".to_string());
    assert!(matches!(r.stop(1), StoppedSession::NoSession));
    r.start(1, 10, SessionMode::Capturing, 0).unwrap();
    r.start_translation(2, 20, TranslationPair::new("ko", "ja"), 0).unwrap();
    match r.stop(1) {
        StoppedSession::Capturing(s) => assert_eq!(s.guild_id, 1),
        _ => panic!("a capture session was active"),
    }
    assert!(!r.is_active(1));
    assert!(matches!(r.stop(1), StoppedSession::NoSession));
    match r.stop(2) {
        StoppedSession::Translating(s) => assert_eq!(s.translation_pair.source_lang, "ko"),
        _ => panic!("a translation session was active"),
    }
    assert_eq!(r.start(1, 10, SessionMode::Translating, 0), Ok(()));
}

#[test]
fn stopped_translation_has_no_artifacts() {
    let mut r = SessionRegistry::new("out".to_string());
    r.start(1, 10, SessionMode::Translating, 0).unwrap();
    let stopped = r.stop(1);
    assert!(stopped.finalize("out").unwrap().is_empty());
    assert!(StoppedSession::NoSession.finalize("out").unwrap().is_empty());
}

fn tick(entries: Vec<(u32, Option<Vec<i16>>)>) -> VoiceEvent {
    let mut speaking = Vec::new();
    for (ssrc, decoded_voice) in entries {
        speaking.push(TickEntry { ssrc, decoded_voice });
    }
    VoiceEvent::VoiceTick { speaking }
}

#[test]
fn receive_handler_drops_unmapped_streams() {
    let mut m = RecordingManager::new("out".to_string());
    m.start_recording(1, 2, 0).unwrap();
    let mut h = VoiceReceiveHandler::new(1);
    h.act(&mut m, &tick(vec![(7, Some(vec![1, 2]))]));
    assert!(m.active_sessions.get(&1).unwrap().speaker_buffers.is_empty());
    h.act(&mut m, &VoiceEvent::SpeakingStateUpdate { ssrc: 7, user_id: None });
    assert_eq!(h.ssrc_to_user.lookup(7), None);
    h.act(&mut m, &VoiceEvent::SpeakingStateUpdate { ssrc: 7, user_id: Some(70) });
    h.act(&mut m, &tick(vec![(7, Some(vec![3, 4])), (8, Some(vec![9])), (7, None), (7, Some(vec![]))]));
    h.act(&mut m, &VoiceEvent::ClientDisconnect { user_id: 70 });
    h.act(&mut m, &VoiceEvent::Other);
    h.act(&mut m, &tick(vec![(7, Some(vec![5]))]));
    let s = m.active_sessions.get(&1).unwrap();
    assert_eq!(s.speaker_buffers.len(), 1);
    assert_eq!(s.speaker_buffers.get(&70).unwrap(), &vec![3i16, 4, 5]);
}

#[test]
fn receive_handler_two_streams_of_one_speaker_interleave_in_order() {
    let mut m = RecordingManager::new("out".to_string());
    m.start_recording(1, 2, 0).unwrap();
    let mut h = VoiceReceiveHandler::new(1);
    h.act(&mut m, &VoiceEvent::SpeakingStateUpdate { ssrc: 7, user_id: Some(70) });
    h.act(&mut m, &VoiceEvent::SpeakingStateUpdate { ssrc: 8, user_id: Some(70) });
    h.act(&mut m, &tick(vec![(8, Some(vec![1])), (7, Some(vec![2])), (8, Some(vec![3]))]));
    assert_eq!(
        m.active_sessions.get(&1).unwrap().speaker_buffers.get(&70).unwrap(),
        &vec![1i16, 2, 3]
    );
}

#[test]
fn flush_held_buffers_into_session() {
    let mut m = RecordingManager::new("out".to_string());
    m.start_recording(1, 2, 0).unwrap();
    let mut h = VoiceReceiveHandler::new(1);
    h.ssrc_to_user.attribute(7, 70);
    h.audio_buffers.insert(7, vec![1, 2, 3]);
    h.audio_buffers.insert(8, vec![4]);
    h.audio_buffers.insert(9, vec![]);
    m.flush_audio_buffers(1, &mut h);
    assert!(h.audio_buffers.is_empty());
    let s = m.active_sessions.get(&1).unwrap();
    assert_eq!(s.speaker_buffers.len(), 1);
    assert_eq!(s.speaker_buffers.get(&70).unwrap(), &vec![1i16, 2, 3]);
}

#[test]
fn translate_handler_feeds_and_silences() {
    let mut m = TranslationManager::new();
    m.start_translation(1, 2, TranslationPair::new("ja", "en"), 0).unwrap();
    let mut h = VoiceTranslateHandler::new(1);
    h.act(&mut m, &tick(vec![(7, Some(vec![1, 2]))]), 10);
    assert!(m.active_sessions.get(&1).unwrap().speaker_buffers.is_empty());
    h.act(&mut m, &VoiceEvent::SpeakingStateUpdate { ssrc: 7, user_id: Some(70) }, 20);
    h.act(&mut m, &tick(vec![(7, Some(vec![3, 4]))]), 30);
    {
        let b = m.active_sessions.get(&1).unwrap().speaker_buffers.get(&70).unwrap();
        assert_eq!(b.samples, vec![3, 4]);
        assert_eq!(b.user_id, 70);
        assert_eq!(b.last_activity, 30);
        assert!(b.is_speaking);
    }
    h.act(&mut m, &tick(vec![(7, None), (8, None)]), 40);
    let s = m.active_sessions.get(&1).unwrap();
    let b = s.speaker_buffers.get(&70).unwrap();
    assert_eq!(b.samples, vec![3, 4]);
    assert_eq!(b.last_activity, 30);
    assert!(!b.is_speaking);
    assert_eq!(s.ssrc_to_user.lookup(7), Some(70));
    assert_eq!(s.speaker_buffers.len(), 1);
}

#[test]
fn registry_routes_events() {
    let mut r = SessionRegistry::new("out".to_string());
    r.start(1, 10, SessionMode::Capturing, 0).unwrap();
    r.start(2, 20, SessionMode::Translating, 0).unwrap();
    let mut rec = VoiceReceiveHandler::new(1);
    let mut tra = VoiceTranslateHandler::new(2);
    r.capture_event(&mut rec, &VoiceEvent::SpeakingStateUpdate { ssrc: 1, user_id: Some(5) });
    r.capture_event(&mut rec, &tick(vec![(1, Some(vec![1, 2]))]));
    r.translate_event(&mut tra, &VoiceEvent::SpeakingStateUpdate { ssrc: 1, user_id: Some(6) }, 0);
    r.translate_event(&mut tra, &tick(vec![(1, Some(vec![7]))]), 5);
    rec.audio_buffers.insert(1, vec![3]);
    r.flush_held_audio(1, &mut rec);
    assert_eq!(
        r.recorder().active_sessions.get(&1).unwrap().speaker_buffers.get(&5).unwrap(),
        &vec![1i16, 2, 3]
    );
    assert_eq!(
        r.translator().active_sessions.get(&2).unwrap().speaker_buffers.get(&6).unwrap().samples,
        vec![7]
    );
}
