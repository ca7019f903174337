use voice_relay::user_settings::{language_full_name, UserLanguageSetting, UserSettingsManager};

#[test]
fn test_user_language_setting() {
    let setting = UserLanguageSetting::new("ja", "ko");
    assert_eq!(setting.source_lang, "ja");
    assert_eq!(setting.target_lang, "ko");
    assert_eq!(setting.get_source_full(), "Japanese");
    assert_eq!(setting.get_target_full(), "Korean");
}

#[test]
fn full_names() {
    let setting = UserLanguageSetting::new("en", "fr");
    assert_eq!(setting.get_source_full(), "English");
    assert_eq!(setting.get_target_full(), "fr");
    assert_eq!(setting.to_full_name("ko"), "Korean");
    assert_eq!(setting.to_full_name(""), "");
    assert_eq!(setting.to_full_name("JA"), "JA");
    assert_eq!(language_full_name("ja"), "Japanese");
}

#[test]
fn settings_set_get_remove() {
    let mut m = UserSettingsManager::new("./user_settings.json");
    assert_eq!(m.file_path, "./user_settings.json");
    assert!(m.get_user_setting(1).is_none());
    m.set_user_language(1, "ja", "ko");
    m.set_user_language(2, "en", "ja");
    m.set_user_language(1, "ko", "en");
    let s = m.get_user_setting(1).unwrap();
    assert_eq!(s.source_lang, "ko");
    assert_eq!(s.target_lang, "en");
    let mut all = m.list_all_settings();
    all.sort_by_key(|e| e.0);
    assert_eq!(all.len(), 2);
    assert_eq!(all[0].0, 1);
    assert_eq!(all[1].0, 2);
    assert_eq!(all[1].1.source_lang, "en");
    m.remove_user_setting(1);
    m.remove_user_setting(3);
    assert!(m.get_user_setting(1).is_none());
    assert_eq!(m.list_all_settings().len(), 1);
}
