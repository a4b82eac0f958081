use openflow::platform::{macos, Platform};
use openflow::settings::{
    decrypt_key, default_hotkey, default_profiles, default_sidecar_paths, encrypt_key, Settings,
};

fn reversing(_name: &str, plain: &str) -> Option<String> {
    Some(plain.chars().rev().collect())
}

fn failing(_name: &str, _plain: &str) -> Option<String> {
    None
}

#[test]
fn defaults_per_platform() {
    assert_eq!(default_hotkey(Platform::Windows), "Ctrl+Win");
    assert_eq!(default_hotkey(Platform::MacOs), "Ctrl+Option");
    let (py, sc) = default_sidecar_paths(Platform::Windows, "/home/x");
    assert_eq!(py, r"C:\dev\open-flow\.venv\Scripts\python.exe");
    assert_eq!(sc, r"C:\dev\open-flow\sidecar\stt_server.py");
    let (py, sc) = default_sidecar_paths(Platform::MacOs, "/Users/ana");
    assert_eq!(py, "/Users/ana/dev/open-flow/.venv/bin/python");
    assert_eq!(sc, "/Users/ana/dev/open-flow/sidecar/stt_server.py");
    let (py, _) = default_sidecar_paths(Platform::MacOs, "/Users/ana/");
    assert_eq!(py, "/Users/ana/dev/open-flow/.venv/bin/python");
    let (py, _) = default_sidecar_paths(Platform::MacOs, "");
    assert_eq!(py, "dev/open-flow/.venv/bin/python");

    let s = Settings::default_for(Platform::MacOs, "/Users/ana");
    assert_eq!(s.hotkey, "Ctrl+Option");
    assert_eq!(s.cancel_key, "ESC");
    assert_eq!(s.mode, "hold");
    assert_eq!(s.stt_provider, "groq");
    assert_eq!(s.gemini_model, "gemini-3.5-flash-lite");
    assert_eq!(s.active_profile, "Bruto corrigido");
    assert_eq!(s.stt_port, 17765);
    assert!(s.history_enabled);
    assert!(!s.groq_ready());
    assert_eq!(s.groq_key(), None);
    let names: Vec<String> = default_profiles().into_iter().map(|p| p.name).collect();
    assert_eq!(
        names,
        ["Bruto corrigido", "Jurídico formal", "E-mail profissional", "WhatsApp curto", "Roteiro de vídeo"]
    );
}

#[test]
fn keys_on_disk() {
    assert_eq!(encrypt_key("k", &Some("abc".into()), &reversing).as_deref(), Some("enc:cba"));
    assert_eq!(encrypt_key("k", &Some("abc".into()), &failing).as_deref(), Some("abc"));
    assert_eq!(encrypt_key("k", &Some("enc:xyz".into()), &reversing).as_deref(), Some("enc:xyz"));
    assert_eq!(encrypt_key("k", &Some(String::new()), &reversing), None);
    assert_eq!(encrypt_key("k", &None, &reversing), None);

    assert_eq!(decrypt_key("k", &Some("enc:cba".into()), &reversing).as_deref(), Some("abc"));
    assert_eq!(decrypt_key("k", &Some("plain".into()), &reversing).as_deref(), Some("plain"));
    // an "enc:" key that cannot be unprotected reads back as no key
    assert_eq!(decrypt_key("k", &Some("enc:cba".into()), &failing), None);
    assert_eq!(decrypt_key("k", &Some(String::new()), &reversing), None);
}

#[test]
fn settings_round_trip_through_disk() {
    let mut s = Settings::default_for(Platform::Windows, "");
    s.groq_api_key = Some("gsk_123".into());
    s.gemini_api_key = Some("AIza456".into());
    for (protect, unprotect) in [
        (&reversing as &dyn Fn(&str, &str) -> Option<String>, &reversing as &dyn Fn(&str, &str) -> Option<String>),
        (&macos::protect_secret, &macos::unprotect_secret),
    ] {
        let disk = s.for_disk(&protect);
        if protect("x", "y").is_some() {
            assert_eq!(disk.groq_api_key.as_deref(), Some("enc:321_ksg"));
            assert_eq!(disk.gemini_api_key.as_deref(), Some("enc:654azIA"));
        } else {
            assert_eq!(disk.groq_api_key.as_deref(), Some("gsk_123"));
        }
        let back = disk.after_load(&unprotect);
        assert_eq!(back.groq_api_key.as_deref(), Some("gsk_123"));
        assert_eq!(back.gemini_api_key.as_deref(), Some("AIza456"));
        assert_eq!(back.hotkey, s.hotkey);
        assert_eq!(back.profiles.len(), 5);
        assert!(back.groq_ready());
    }
}

#[test]
fn loading_fills_missing_profiles() {
    let mut s = Settings::default_for(Platform::MacOs, "/h");
    s.profiles.clear();
    let back = s.after_load(&macos::unprotect_secret);
    assert_eq!(back.profiles.len(), 5);
    assert_eq!(back.profiles[0].name, "Bruto corrigido");
}
