use voice_relay::audio::{downsample_48k_to_16k, is_low_energy};
use voice_relay::paths::extract_user_id_from_filename;
use voice_relay::recording::make_artifact_path;
use voice_relay::speech::{detect_language_local, is_likely_hallucination, join_segments, normalize};
use voice_relay::text::{chars_of, is_control, is_whitespace, str_contains, take_chars};
use voice_relay::translator::Translator;

const TEXTS: [&str; 16] = [
    "",
    "plain ascii",
    "<<>>&<>",
    "tab\tand\nnewline\r\nreturn",
    "\u{0}\u{1}\u{1f}\u{7f}\u{80}\u{9f}\u{a0}",
    "  leading and trailing  ",
    "日本語のテキスト、です。",
    "お疲れ様でした",
    " ご視聴 ありがとう ございました！ ",
    "한국어 텍스트",
    "mixed 日本語 and English with <tags> and \u{200b} zero width",
    "emoji 🌐🗣️🔴",
    "a\u{3000}b\u{2028}c\u{85}d",
    "ǅ ß İ ſ ŉ",
    "1_2_3.wav",
    "\n\n\n",
];

fn long_texts() -> Vec<String> {
    vec![
        "a".repeat(1999),
        "a".repeat(2000),
        "a".repeat(2001),
        "<".repeat(2001),
        format!("{}{}", "\u{1}".repeat(3000), "b".repeat(2500)),
        "日".repeat(5000),
    ]
}

fn sanitize_with_std(text: &str) -> String {
    text.chars()
        .filter(|c| !c.is_control() || *c == '\n' || *c == '\t')
        .take(2000)
        .collect::<String>()
        .replace("<", "&lt;")
        .replace(">", "&gt;")
}

#[test]
fn sanitizing_agrees_with_std() {
    let t = Translator::new("k".to_string());
    for text in TEXTS {
        assert_eq!(t.sanitize_input(text), sanitize_with_std(text));
    }
    for text in long_texts() {
        assert_eq!(t.sanitize_input(&text), sanitize_with_std(&text));
    }
}

fn hallucination_with_std(text: &str, duration_ms: u64, low_energy: bool) -> bool {
    let normalized: String =
        text.chars().filter(|c| !c.is_whitespace() && !"。、！!？?".contains(*c)).collect();
    if !(duration_ms < 1200 || low_energy) {
        return false;
    }
    let known = [
        "お疲れ様でした",
        "おつかれさまでした",
        "ご視聴ありがとうございました",
        "ごしちょうありがとうございました",
    ];
    known.iter().any(|phrase| normalized.contains(phrase))
}

#[test]
fn rejection_agrees_with_std() {
    for text in TEXTS {
        for duration in [0u64, 1199, 1200, 5000] {
            for low in [false, true] {
                assert_eq!(
                    is_likely_hallucination(text, duration, low),
                    hallucination_with_std(text, duration, low)
                );
            }
        }
    }
}

fn japanese_with_std(text: &str) -> bool {
    let mut count = 0usize;
    for c in text.chars() {
        if ('\u{3040}'..='\u{309F}').contains(&c)
            || ('\u{30A0}'..='\u{30FF}').contains(&c)
            || ('\u{4E00}'..='\u{9FFF}').contains(&c)
        {
            count += 1;
        }
    }
    let total = text.chars().count();
    total > 0 && count * 10 > total
}

#[test]
fn language_guess_agrees_with_std() {
    for text in TEXTS {
        let expected = if japanese_with_std(text) { "ja" } else { "en" };
        assert_eq!(detect_language_local(text), expected);
        let expected = if japanese_with_std(text) { "Japanese" } else { "English" };
        assert_eq!(Translator::detect_language_local(text), expected);
    }
}

#[test]
fn language_codes_agree_with_std_normalization() {
    let t = Translator::new("k".to_string());
    for lang in ["JA", " ja ", "Japanese", "jp", "KO", "kr", "EN", "en-US", "En_Us", "EN-gb", "en_GB"] {
        let normalized = lang.trim().to_lowercase();
        let expected = match normalized.as_str() {
            "ja" | "japanese" | "jp" => "JA",
            "ko" | "korean" | "kr" => "KO",
            "en" | "english" | "en-us" | "en_us" => "EN-US",
            "en-gb" | "en_gb" => "EN-GB",
            other => panic!("no code for {}", other),
        };
        assert_eq!(t.map_language_code(lang).unwrap(), expected);
    }
    for lang in ["", "  ", "xx", "ja ko", "en-", "日本語"] {
        assert!(t.map_language_code(lang).is_err());
    }
}

fn join_with_std(segments: &[String]) -> String {
    let mut transcription = String::new();
    for text in segments {
        if !text.trim().is_empty() {
            transcription.push_str(text);
            transcription.push(' ');
        }
    }
    transcription.trim().to_string()
}

#[test]
fn joining_agrees_with_std() {
    let all: Vec<String> = TEXTS.iter().map(|t| t.to_string()).collect();
    assert_eq!(join_segments(&all), join_with_std(&all));
    for window in all.windows(3) {
        assert_eq!(join_segments(&window.to_vec()), join_with_std(window));
    }
}

#[test]
fn search_and_prefix_agree_with_std() {
    for hay in TEXTS {
        for needle in TEXTS {
            assert_eq!(str_contains(hay, needle), hay.contains(needle));
        }
        for n in [0usize, 1, 2, 5, 100] {
            assert_eq!(take_chars(hay, n), hay.chars().take(n).collect::<String>());
        }
        assert_eq!(chars_of(hay), hay.chars().collect::<Vec<char>>());
    }
}

#[test]
fn decimation_agrees_with_std() {
    for len in 0..50usize {
        let samples: Vec<i16> = (0..len).map(|i| (i * 37 % 1000) as i16 - 500).collect();
        let expected: Vec<i16> = samples.iter().step_by(3).copied().collect();
        assert_eq!(downsample_48k_to_16k(&samples), expected);
    }
}

#[test]
fn energy_agrees_with_floating_point_away_from_the_threshold() {
    for amplitude in [0i16, 1, 100, 300, 320, 335, 400, 1000, 20000, i16::MAX, i16::MIN] {
        for len in [1usize, 2, 7, 1000] {
            let samples: Vec<i16> =
                (0..len).map(|i| if i % 2 == 0 { amplitude } else { amplitude.saturating_neg() }).collect();
            let floats: Vec<f64> = samples.iter().map(|s| *s as f64 / 32768.0).collect();
            let rms = (floats.iter().map(|s| s * s).sum::<f64>() / floats.len() as f64).sqrt();
            assert_eq!(is_low_energy(&samples), rms < 0.01);
        }
    }
}

fn speaker_with_std(file_path: &str) -> Option<u64> {
    std::path::Path::new(file_path).file_stem().and_then(|stem| stem.to_str()).and_then(|name| {
        let parts: Vec<&str> = name.split('_').collect();
        if parts.len() >= 2 {
            parts[1].parse::<u64>().ok()
        } else {
            None
        }
    })
}

#[test]
fn artifact_names_are_read_as_std_reads_them() {
    let mut paths: Vec<String> = vec![
        "./recordings/1_2_20240102_030405.wav".to_string(),
        "1_2_x.wav".to_string(),
        "a/b/c/10_20.wav".to_string(),
        "none.wav".to_string(),
        "x_y_z.wav".to_string(),
        "1_+2_3.wav".to_string(),
        "1_-2_3.wav".to_string(),
        "1_2.5_3.wav".to_string(),
        "1_99999999999999999999_3.wav".to_string(),
        "dir.with.dots/7_8_9.tar.gz".to_string(),
        "7_8".to_string(),
        "_8_".to_string(),
        "__".to_string(),
        "./recordings/1_2_20240102_030405.wav/".to_string(),
        "a/1_22_x//".to_string(),
        "3_4/".to_string(),
        "3_4///".to_string(),
        "a/b/".to_string(),
        "/".to_string(),
        "//".to_string(),
        "/5_6".to_string(),
    ];
    for guild in [0u64, 5, u64::MAX] {
        for speaker in [0u64, 42, u64::MAX] {
            paths.push(make_artifact_path("./recordings", guild, speaker, "20240102_030405"));
            paths.push(make_artifact_path("", guild, speaker, ""));
        }
    }
    for path in paths {
        assert_eq!(extract_user_id_from_filename(&path), speaker_with_std(&path));
    }
}

#[test]
fn artifact_names_agree_with_formatting() {
    for guild in [0u64, 9, 10, 12345678901234567890, u64::MAX] {
        for speaker in [0u64, 1, 99, 100, u64::MAX] {
            assert_eq!(
                make_artifact_path("dir", guild, speaker, "S"),
                format!("{}/{}_{}_{}.wav", "dir", guild, speaker, "S")
            );
        }
    }
}

#[test]
fn every_character_is_classed_as_std_classes_it() {
    let t = Translator::new("k".to_string());
    for n in 0..=0x10FFFFu32 {
        let Some(c) = char::from_u32(n) else { continue };
        assert_eq!(is_whitespace(c), c.is_whitespace(), "U+{:04X}", n);
        assert_eq!(is_control(c), c.is_control(), "U+{:04X}", n);
    }
    for n in (0..0x3100u32).chain([0xFEFF, 0x1F534, 0x10FFFF]) {
        let Some(c) = char::from_u32(n) else { continue };
        let text = c.to_string();
        let kept = !c.is_control() || c == '\n' || c == '\t';
        assert_eq!(t.sanitize_input(&text).is_empty(), !kept, "U+{:04X}", n);
        let dropped = c.is_whitespace() || "。、！!？?".contains(c);
        assert_eq!(normalize(&text).is_empty(), dropped, "U+{:04X}", n);
        assert_eq!(text.trim().is_empty(), is_whitespace(c), "U+{:04X}", n);
    }
}
