use openflow::pipeline::{
    audio_ms, check_transcript, final_text, groq_first, groq_language, groq_takes_over,
    sidecar_wait, starts_local_at_launch, stt_next, transcript_text, SidecarWait, too_short, SttAction, SttStep, TranscriptIssue,
};
use openflow::platform::Platform;
use openflow::settings::{Settings, Snippet};
use openflow::snippets::{apply_snippet_lowered, apply_snippets};

fn snip(trigger: &str, text: &str) -> Snippet {
    Snippet { trigger: trigger.into(), text: text.into() }
}

#[test]
fn recording_length() {
    assert!(too_short(6399, 16000));
    assert!(!too_short(6400, 16000));
    assert!(!too_short(0, 0));
    assert_eq!(audio_ms(16000, 16000), 1000);
    assert_eq!(audio_ms(12800, 16000), 800);
    assert_eq!(audio_ms(1, 48000), 0);
    assert_eq!(audio_ms(5, 0), u64::MAX);
}

#[test]
fn transcript_checks() {
    assert_eq!(check_transcript("", 5000), Some(TranscriptIssue::Empty));
    assert_eq!(check_transcript("Tchau.", 900), Some(TranscriptIssue::SilenceHallucination));
    assert_eq!(check_transcript("Tchau.", 2500), None);
    assert_eq!(check_transcript("Bom dia a todos", 900), None);
}

#[test]
fn snippets_replace_first_occurrence_case_insensitively() {
    let sns = vec![snip("meu instagram", "@openflow"), snip("", "nunca"), snip("assinatura", "— M.")];
    assert_eq!(
        apply_snippets("Siga Meu Instagram. E meu instagram de novo", &sns).as_deref(),
        Some("Siga @openflow E meu instagram de novo")
    );
    assert_eq!(apply_snippets("Fim, assinatura, ok", &sns).as_deref(), Some("Fim, — M. ok"));
    assert_eq!(apply_snippets("nada aqui", &sns).as_deref(), Some("nada aqui"));
    assert_eq!(apply_snippets("ÉPICO demais", &vec![snip("épico", "top")]).as_deref(), Some("top demais"));
    assert_eq!(apply_snippets("x", &Vec::new()).as_deref(), Some("x"));
    // later snippets see the text produced by earlier ones
    let chain = vec![snip("a", "bb"), snip("bb", "c")];
    assert_eq!(apply_snippets("a!", &chain).as_deref(), Some("c!"));
}

#[test]
fn snippet_positions_inside_a_character_are_refused() {
    // "İ" (2 bytes) lower-cases to "i̇" (3 bytes): the byte position found in the
    // lower-cased text falls inside a character of the input text
    assert_eq!(apply_snippets("İx", &vec![snip("x", "y")]), None);
}

#[test]
fn final_text_prefers_the_rewrite() {
    let sns = vec![snip("pix", "chave@exemplo")];
    assert_eq!(final_text("raw pix", Some("Rewritten pix.".into()), &sns).as_deref(), Some("Rewritten chave@exemplo"));
    assert_eq!(final_text("raw pix", None, &sns).as_deref(), Some("raw chave@exemplo"));
}

#[test]
fn provider_choice() {
    let mut s = Settings::default_for(Platform::Windows, "");
    assert!(!groq_first(&s));
    assert!(starts_local_at_launch(&s));
    s.groq_api_key = Some("k".into());
    assert!(groq_first(&s));
    assert!(!groq_takes_over(&s));
    assert!(!starts_local_at_launch(&s));
    s.stt_provider = "local".into();
    assert!(!groq_first(&s));
    assert!(groq_takes_over(&s));
    assert!(starts_local_at_launch(&s));
    s.groq_api_key = Some(String::new());
    assert!(!groq_takes_over(&s));
    assert_eq!(groq_language("auto"), None);
    assert_eq!(groq_language("pt").as_deref(), Some("pt"));
}

fn with_provider(provider: &str, key: Option<&str>) -> Settings {
    let mut s = Settings::default_for(Platform::Windows, "");
    s.stt_provider = provider.into();
    s.groq_api_key = key.map(|k| k.to_string());
    s
}

#[test]
fn groq_first_falls_back_to_local() {
    let s = with_provider("groq", Some("k"));
    assert_eq!(stt_next(&s, SttStep::Begin), SttAction::CallGroqFirst);
    assert_eq!(stt_next(&s, SttStep::GroqFirstDone(Ok("oi".into()))), SttAction::Finish(Ok("oi".into())));
    assert_eq!(stt_next(&s, SttStep::GroqFirstDone(Err("429".into()))), SttAction::StartLocal);
    assert_eq!(stt_next(&s, SttStep::LocalStarted(Ok(()))), SttAction::CallLocal);
    // provider "groq": a local start failure is final, Groq is not called twice
    assert_eq!(
        stt_next(&s, SttStep::LocalStarted(Err("sem sidecar".into()))),
        SttAction::Finish(Err("sem sidecar".into()))
    );
    assert_eq!(stt_next(&s, SttStep::LocalDone(Ok("texto".into()))), SttAction::Finish(Ok("texto".into())));
}

#[test]
fn local_hands_over_to_groq_only_with_a_key() {
    let s = with_provider("local", Some("k"));
    assert_eq!(stt_next(&s, SttStep::Begin), SttAction::StartLocal);
    assert_eq!(stt_next(&s, SttStep::LocalStarted(Err("x".into()))), SttAction::CallGroqFallback);
    assert_eq!(
        stt_next(&s, SttStep::GroqFallbackDone(Err("401".into()))),
        SttAction::Finish(Err("401".into()))
    );
    let no_key = with_provider("local", None);
    assert_eq!(stt_next(&no_key, SttStep::Begin), SttAction::StartLocal);
    assert_eq!(stt_next(&no_key, SttStep::LocalStarted(Err("x".into()))), SttAction::Finish(Err("x".into())));
    // "groq" without a key starts locally
    assert_eq!(stt_next(&with_provider("groq", Some("")), SttStep::Begin), SttAction::StartLocal);
}

#[test]
fn sidecar_waits_two_seconds_between_checks_for_two_minutes() {
    assert_eq!(sidecar_wait(0, None), SidecarWait::CheckHealth);
    assert_eq!(sidecar_wait(0, Some(false)), SidecarWait::Sleep(2000));
    assert_eq!(sidecar_wait(119_999, None), SidecarWait::CheckHealth);
    assert_eq!(sidecar_wait(119_999, Some(true)), SidecarWait::Ready);
    assert_eq!(sidecar_wait(120_000, None), SidecarWait::GiveUp);
}

#[test]
fn transcript_text_is_trimmed() {
    assert_eq!(transcript_text(Some("  Olá, mundo.\n")), "Olá, mundo.");
    assert_eq!(transcript_text(None), "");
    assert_eq!(transcript_text(Some("   ")), "");
}

#[test]
fn snippet_step_on_given_lower_case_text() {
    assert_eq!(apply_snippet_lowered("Meu PIX.", "meu pix.", "pix", "pix", "chave@x").as_deref(), Some("Meu chave@x"));
    assert_eq!(apply_snippet_lowered("abc", "abc", "", "", "z").as_deref(), Some("abc"));
    assert_eq!(apply_snippet_lowered("abc", "abc", "q", "q", "z").as_deref(), Some("abc"));
    // a position found in the lower-cased form that falls inside a character
    assert_eq!(apply_snippet_lowered("éx", "aaax", "x", "x", "y"), None);
}
