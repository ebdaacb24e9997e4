use file_lock_inspector::i18n::{current_language, format_n, format_pid, set_language, t, Key, Language, LanguageSetting};

#[test]
fn default_is_chinese() {
    let mut setting = LanguageSetting::new();
    set_language(&mut setting, Language::Zh);
    assert_eq!(current_language(&setting), Language::Zh);
    assert_eq!(t(&setting, Key::BtnAddFile), "+ 添加文件");
}

#[test]
fn switch_to_english() {
    let mut setting = LanguageSetting::new();
    set_language(&mut setting, Language::En);
    assert_eq!(t(&setting, Key::BtnAddFile), "+ Add File");
    set_language(&mut setting, Language::Zh);
}

#[test]
fn language_default_trait_is_chinese() {
    assert_eq!(Language::default(), Language::Zh);
}

#[test]
fn format_helpers_replace_placeholders() {
    let s = format_pid("Terminating {NAME} (PID {PID})", "notepad.exe", 1234);
    assert_eq!(s, "Terminating notepad.exe (PID 1234)");
    let s2 = format_n("Will remove {N} items", 5);
    assert_eq!(s2, "Will remove 5 items");
}

#[test]
fn new_setting_is_english_and_round_trips() {
    let mut setting = LanguageSetting::new();
    assert_eq!(current_language(&setting), Language::En);
    set_language(&mut setting, Language::En);
    assert_eq!(current_language(&setting), Language::En);
    set_language(&mut setting, Language::Zh);
    assert_eq!(current_language(&setting), Language::Zh);
}

#[test]
fn language_names_and_codes() {
    assert_eq!(Language::En.as_str(), "English");
    assert_eq!(Language::Zh.as_str(), "简体中文");
    assert_eq!(Language::from_u8(0), Language::En);
    assert_eq!(Language::from_u8(1), Language::Zh);
    assert_eq!(Language::from_u8(7), Language::En);
}

#[test]
fn format_helpers_leave_other_text_alone() {
    assert_eq!(format_pid("{PID}/{PID} {NAME}", "a", 0), "0/0 a");
    assert_eq!(format_n("no placeholder", 3), "no placeholder");
    assert_eq!(format_n("{N}{N}", 12), "1212");
}
