use openflow::menu::{
    apply_menu_event, language_checked, language_item_id, profile_checked, profile_item_id, pt_en_checked,
    MenuEffect,
};
use openflow::platform::Platform;
use openflow::settings::Settings;

#[test]
fn menu_clicks() {
    let mut s = Settings::default_for(Platform::Windows, "");
    let id = profile_item_id("Jurídico formal");
    assert_eq!(id, "profile:Jurídico formal");
    assert_eq!(apply_menu_event(&mut s, &id), MenuEffect::SettingsChanged);
    assert_eq!(s.active_profile, "Jurídico formal");

    assert_eq!(language_item_id("speech", "en"), "speech:en");
    assert_eq!(apply_menu_event(&mut s, "speech:en"), MenuEffect::SettingsChanged);
    assert_eq!(s.speech_lang, "en");
    assert_eq!(apply_menu_event(&mut s, "out:es"), MenuEffect::SettingsChanged);
    assert_eq!(s.output_lang, "es");

    assert_eq!(apply_menu_event(&mut s, "copy_last"), MenuEffect::CopyLast);
    assert_eq!(apply_menu_event(&mut s, "show"), MenuEffect::ShowWindow);
    assert_eq!(apply_menu_event(&mut s, "quit"), MenuEffect::Quit);
    assert_eq!(apply_menu_event(&mut s, "other"), MenuEffect::Ignored);
    assert_eq!(s.output_lang, "es");
}

#[test]
fn pt_en_item_flips() {
    let mut s = Settings::default_for(Platform::MacOs, "");
    assert!(!pt_en_checked(&s));
    apply_menu_event(&mut s, "lang_pt_en");
    assert!(pt_en_checked(&s));
    assert_eq!((s.speech_lang.as_str(), s.output_lang.as_str()), ("pt", "en"));
    apply_menu_event(&mut s, "lang_pt_en");
    assert!(!pt_en_checked(&s));
    assert_eq!((s.speech_lang.as_str(), s.output_lang.as_str()), ("pt", "same"));
    s.speech_lang = "es".into();
    s.output_lang = "en".into();
    apply_menu_event(&mut s, "lang_pt_en");
    assert_eq!((s.speech_lang.as_str(), s.output_lang.as_str()), ("pt", "en"));
}

#[test]
fn clicked_items_become_checked() {
    let mut s = Settings::default_for(Platform::Windows, "");
    let id = language_item_id("out", "es");
    assert_eq!(apply_menu_event(&mut s, &id), MenuEffect::SettingsChanged);
    assert!(language_checked(&s, "out", "es"));
    assert!(!language_checked(&s, "out", "en"));
    assert!(!language_checked(&s, "speech", "es") || s.speech_lang == "es");
    apply_menu_event(&mut s, &language_item_id("speech", "auto"));
    assert!(language_checked(&s, "speech", "auto"));
    assert!(!language_checked(&s, "other", "auto"));
    apply_menu_event(&mut s, &profile_item_id("Casual"));
    assert!(profile_checked(&s, "Casual"));
    assert!(!profile_checked(&s, "Jurídico formal"));
}
