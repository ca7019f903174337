use voice_relay::paths::{extract_user_id_from_filename, parse_u64};
use voice_relay::recording::{make_artifact_path, FinalizeError, RecordingSession};
use voice_relay::text::{chars_of, str_contains, str_eq, take_chars};

// 2024-01-02 03:04:05 UTC
const START_MS: i64 = 1_704_164_645_000;

#[test]
fn finalize_without_audio_gives_no_artifact() {
    let s = RecordingSession::new(1, 2, "out", START_MS);
    assert_eq!(s.finalize("out").unwrap().len(), 0);
    let mut s = RecordingSession::new(1, 2, "out", START_MS);
    s.add_audio(5, &[]);
    s.add_audio(6, &[]);
    assert!(s.finalize("out").unwrap().is_empty());
    let mut s = RecordingSession::new(1, 2, "out", i64::MAX);
    s.add_audio(5, &[]);
    assert!(s.finalize("out").unwrap().is_empty());
}

#[test]
fn finalize_writes_one_image_per_speaker() {
    let mut s = RecordingSession::new(123, 2, "ignored", START_MS);
    s.add_audio(9, &[1, -2, 3]);
    s.add_audio(8, &[]);
    s.add_audio(7, &[100]);
    s.add_audio(9, &[i16::MAX, i16::MIN]);
    let mut list = s.finalize("./recordings").unwrap();
    list.sort_by_key(|a| a.speaker);
    assert_eq!(list.len(), 2);
    assert_eq!(list[0].speaker, 7);
    assert_eq!(list[0].path, "./recordings/123_7_20240102_030405.wav");
    assert_eq!(list[1].speaker, 9);
    assert_eq!(list[1].path, "./recordings/123_9_20240102_030405.wav");
    assert_eq!(list[1].bytes.len(), 44 + 2 * 5);
    assert_eq!(&list[1].bytes[0..4], b"RIFF");
    let mut reader = hound::WavReader::new(std::io::Cursor::new(&list[1].bytes)).unwrap();
    let spec = reader.spec();
    assert_eq!(spec.channels, 1);
    assert_eq!(spec.sample_rate, 48000);
    assert_eq!(spec.bits_per_sample, 16);
    assert_eq!(spec.sample_format, hound::SampleFormat::Int);
    let samples: Vec<i16> = reader.samples::<i16>().map(|s| s.unwrap()).collect();
    assert_eq!(samples, vec![1, -2, 3, i16::MAX, i16::MIN]);
    assert_eq!(s.speaker_buffers.get(&9).unwrap().len(), 5);
}

#[test]
fn finalize_image_bytes() {
    let mut s = RecordingSession::new(1, 2, "d", 0);
    s.add_audio(3, &[0x0102, -1]);
    let list = s.finalize("d").unwrap();
    assert_eq!(list[0].path, "d/1_3_19700101_000000.wav");
    let expected: Vec<u8> = vec![
        b'R', b'I', b'F', b'F', 40, 0, 0, 0, b'W', b'A', b'V', b'E', b'f', b'm', b't', b' ', 16,
        0, 0, 0, 1, 0, 1, 0, 0x80, 0xbb, 0, 0, 0x00, 0x77, 0x01, 0, 2, 0, 16, 0, b'd', b'a',
        b't', b'a', 4, 0, 0, 0, 0x02, 0x01, 0xff, 0xff,
    ];
    assert_eq!(list[0].bytes, expected);
}

#[test]
fn finalize_rejects_a_start_time_without_calendar_date() {
    let mut s = RecordingSession::new(1, 2, "out", i64::MAX);
    s.add_audio(5, &[1]);
    assert_eq!(s.finalize("out").unwrap_err(), FinalizeError::Timestamp);
    let mut s = RecordingSession::new(1, 2, "out", i64::MIN);
    s.add_audio(5, &[1]);
    assert_eq!(s.finalize("out").unwrap_err(), FinalizeError::Timestamp);
}

#[test]
fn artifact_names() {
    assert_eq!(make_artifact_path("a/b", 0, u64::MAX, "S"), "a/b/0_18446744073709551615_S.wav");
    assert_eq!(make_artifact_path("", 10, 909, ""), "/10_909_.wav");
}

#[test]
fn speaker_is_read_back_from_the_name() {
    assert_eq!(
        extract_user_id_from_filename("./recordings/123_456_20240102_030405.wav"),
        Some(456)
    );
    assert_eq!(extract_user_id_from_filename("123_456_20240102_030405.wav"), Some(456));
    assert_eq!(extract_user_id_from_filename("1_2"), Some(2));
    assert_eq!(extract_user_id_from_filename("1_2.wav"), Some(2));
    assert_eq!(extract_user_id_from_filename("a.b/1_18446744073709551615_x.y.wav"), Some(u64::MAX));
    assert_eq!(extract_user_id_from_filename("1_18446744073709551616_x.wav"), None);
    assert_eq!(extract_user_id_from_filename("1_+7_x.wav"), Some(7));
    assert_eq!(extract_user_id_from_filename("1_007_x.wav"), Some(7));
    assert_eq!(extract_user_id_from_filename("1_-7_x.wav"), None);
    assert_eq!(extract_user_id_from_filename("1__x.wav"), None);
    assert_eq!(extract_user_id_from_filename("1_x_2.wav"), None);
    assert_eq!(extract_user_id_from_filename("nounderscore.wav"), None);
    assert_eq!(extract_user_id_from_filename(""), None);
    assert_eq!(extract_user_id_from_filename("1_2/other.wav"), None);
    assert_eq!(extract_user_id_from_filename("out/1_2_x.wav/"), Some(2));
    assert_eq!(extract_user_id_from_filename("1_2///"), Some(2));
    assert_eq!(extract_user_id_from_filename("/"), None);
    assert_eq!(extract_user_id_from_filename("dir/.1_2"), Some(2));
    assert_eq!(extract_user_id_from_filename("1_2.3_4"), Some(2));
    assert_eq!(extract_user_id_from_filename("1_23.4_5"), Some(23));
}

#[test]
fn round_trip_of_artifact_names() {
    for (guild, speaker) in [(0u64, 0u64), (1, 9), (u64::MAX, u64::MAX), (55, 1234567890)] {
        let path = make_artifact_path("./recordings", guild, speaker, "20240102_030405");
        assert_eq!(extract_user_id_from_filename(&path), Some(speaker));
    }
}

#[test]
fn numbers_are_parsed_strictly() {
    assert_eq!(parse_u64(&chars_of("0")), Some(0));
    assert_eq!(parse_u64(&chars_of("000")), Some(0));
    assert_eq!(parse_u64(&chars_of("+")), None);
    assert_eq!(parse_u64(&chars_of("")), None);
    assert_eq!(parse_u64(&chars_of("++1")), None);
    assert_eq!(parse_u64(&chars_of("12a")), None);
    assert_eq!(parse_u64(&chars_of("١٢")), None);
    assert_eq!(parse_u64(&chars_of("18446744073709551615")), Some(u64::MAX));
    assert_eq!(parse_u64(&chars_of("0018446744073709551615")), Some(u64::MAX));
    assert_eq!(parse_u64(&chars_of("18446744073709551616")), None);
    assert_eq!(parse_u64(&chars_of("99999999999999999999999")), None);
}

#[test]
fn text_helpers() {
    assert_eq!(chars_of("hé🌐"), vec!['h', 'é', '🌐']);
    assert!(str_eq("", ""));
    assert!(str_eq("ja", "ja"));
    assert!(!str_eq("ja", "jap"));
    assert!(!str_eq("ja", "jb"));
    assert!(str_contains("hello", ""));
    assert!(str_contains("hello", "ell"));
    assert!(str_contains("hello", "hello"));
    assert!(str_contains("hello", "o"));
    assert!(!str_contains("hello", "hellos"));
    assert!(!str_contains("hello", "lo "));
    assert!(!str_contains("", "a"));
    assert_eq!(take_chars("héllo", 2), "hé");
    assert_eq!(take_chars("héllo", 0), "");
    assert_eq!(take_chars("héllo", 5), "héllo");
    assert_eq!(take_chars("héllo", 99), "héllo");
}
