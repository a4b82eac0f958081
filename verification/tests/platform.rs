use openflow::platform::macos::{tap_transition, TapEvent, TapTransition};
use openflow::platform::macos::{
    self, modifier_down, FLAG_ALTERNATE, FLAG_COMMAND, FLAG_CONTROL, FLAG_SHIFT,
};
use openflow::platform::windows::{
    self, decode_blob, encode_blob, key_transition, secret_from_bytes, LLKHF_INJECTED, WM_KEYDOWN,
    WM_KEYUP, WM_SYSKEYDOWN,
};

#[test]
fn soltura_de_modificador_vira_down_false() {
    let ambos = FLAG_CONTROL | FLAG_ALTERNATE;
    assert_eq!(modifier_down(59, ambos), Some(true));
    assert_eq!(modifier_down(58, ambos), Some(true));
    // soltou o Control, Option segue pressionado: é aqui que o hold travava
    assert_eq!(modifier_down(59, FLAG_ALTERNATE), Some(false));
    assert_eq!(modifier_down(58, FLAG_ALTERNATE), Some(true));
    assert_eq!(modifier_down(62, 0), Some(false));
    // CapsLock não tem flag de tecla: cai no fallback
    assert_eq!(modifier_down(57, 0), None);
}

#[test]
fn modifier_flags_of_command_and_shift() {
    assert_eq!(modifier_down(55, FLAG_COMMAND), Some(true));
    assert_eq!(modifier_down(54, FLAG_SHIFT), Some(false));
    assert_eq!(modifier_down(60, FLAG_SHIFT | FLAG_COMMAND), Some(true));
}

#[test]
fn key_tables() {
    assert_eq!(windows::key_from_name("F1"), 0x70);
    assert_eq!(windows::key_from_name("SCROLLLOCK"), 0x91);
    assert_eq!(windows::key_from_name("ESCAPE"), 0x1B);
    assert_eq!(windows::key_from_name("esc"), 0x78);
    assert_eq!(macos::key_from_name("HELP"), 114);
    assert_eq!(macos::key_from_name("DELETE"), 51);
    assert_eq!(macos::key_from_name("PAUSE"), 101);
    assert_eq!(windows::modifier_group("SUPER"), Some(vec![0x5B, 0x5C]));
    assert_eq!(windows::modifier_group("OPT"), Some(vec![0xA4, 0xA5]));
    assert_eq!(macos::modifier_group("COMMAND"), Some(vec![55, 54]));
    assert_eq!(macos::modifier_group("F1"), None);
}

#[test]
fn macos_keeps_secrets_in_clear() {
    assert_eq!(macos::protect_secret("groq_api_key", "abc"), None);
    assert_eq!(macos::unprotect_secret("groq_api_key", "abc"), None);
}

#[test]
fn hook_messages() {
    assert_eq!(key_transition(0, 0, WM_KEYDOWN), Some(true));
    assert_eq!(key_transition(0, 0, WM_SYSKEYDOWN), Some(true));
    assert_eq!(key_transition(0, 0, WM_KEYUP), Some(false));
    assert_eq!(key_transition(0, LLKHF_INJECTED, WM_KEYDOWN), None);
    assert_eq!(key_transition(-1, 0, WM_KEYDOWN), None);
    assert_eq!(key_transition(0, 0, 0x0200), None);
}

#[test]
fn blob_text_form() {
    assert_eq!(encode_blob(b"hello"), "aGVsbG8=");
    assert_eq!(encode_blob(&[]), "");
    assert_eq!(decode_blob("aGVsbG8=").as_deref(), Some(&b"hello"[..]));
    assert_eq!(decode_blob("not base64!"), None);
    let blob = vec![0u8, 1, 2, 250, 255, 128];
    assert_eq!(decode_blob(&encode_blob(&blob)), Some(blob));
    assert_eq!(secret_from_bytes(b"chave".to_vec()).as_deref(), Some("chave"));
    assert_eq!(secret_from_bytes(vec![0xff, 0xfe]), None);
}

#[test]
fn windows_secret_text_form() {
    let seal = |b: &[u8]| -> Option<Vec<u8>> { Some(b.iter().rev().cloned().collect()) };
    let stored = windows::protect_secret("gemini_api_key", "abc", &seal).unwrap();
    assert_eq!(stored, encode_blob(b"cba"));
    assert_eq!(windows::unprotect_secret("gemini_api_key", &stored, &seal).as_deref(), Some("abc"));
    let refuse = |_: &[u8]| -> Option<Vec<u8>> { None };
    assert_eq!(windows::protect_secret("k", "abc", &refuse), None);
    assert_eq!(windows::unprotect_secret("k", &stored, &refuse), None);
    assert_eq!(windows::unprotect_secret("k", "%%%", &seal), None);
    // unprotected bytes that are not UTF-8
    let garble = |_: &[u8]| -> Option<Vec<u8>> { Some(vec![0xc3]) };
    assert_eq!(windows::unprotect_secret("k", &stored, &garble), None);
}

#[test]
fn windows_secret_round_trip_with_matching_seal() {
    let seal = |b: &[u8]| Some(b.iter().map(|x| x ^ 0x5A).collect::<Vec<u8>>());
    let open = |b: &[u8]| Some(b.iter().map(|x| x ^ 0x5A).collect::<Vec<u8>>());
    let stored = windows::protect_secret("gemini_api_key", "chave-ç-123", &seal).unwrap();
    assert_ne!(stored, "chave-ç-123");
    // the name plays no part in unprotecting
    assert_eq!(
        windows::unprotect_secret("outro_nome", &stored, &open).as_deref(),
        Some("chave-ç-123")
    );
    assert_eq!(windows::unprotect_secret("x", "não é base64!", &open), None);
    let refuse = |_: &[u8]| None::<Vec<u8>>;
    assert_eq!(windows::protect_secret("x", "abc", &refuse), None);
}

#[test]
fn tapped_events_of_the_app_itself_are_ignored() {
    assert_eq!(tap_transition(TapEvent::KeyDown, 42, 42, 9, 0), TapTransition::Ignore);
    assert_eq!(tap_transition(TapEvent::KeyDown, 7, 42, 9, 0), TapTransition::Key(true));
    assert_eq!(tap_transition(TapEvent::KeyUp, 7, 42, 9, 0), TapTransition::Key(false));
    assert_eq!(tap_transition(TapEvent::FlagsChanged, 7, 42, 59, FLAG_CONTROL), TapTransition::Key(true));
    assert_eq!(tap_transition(TapEvent::FlagsChanged, 7, 42, 59, FLAG_ALTERNATE), TapTransition::Key(false));
    assert_eq!(tap_transition(TapEvent::FlagsChanged, 7, 42, 57, 0), TapTransition::AskKeyState);
}

#[test]
fn blob_text_is_standard_padded_base64() {
    assert_eq!(encode_blob(b"M"), "TQ==");
    assert_eq!(encode_blob(b"Ma"), "TWE=");
    assert_eq!(encode_blob(b"Man"), "TWFu");
    assert_eq!(encode_blob(&[255, 254, 253]), "//79");
    assert_eq!(encode_blob(b""), "");
    assert_eq!(decode_blob("//79"), Some(vec![255, 254, 253]));
    assert_eq!(decode_blob("TQ"), None);
}
