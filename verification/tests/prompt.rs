use openflow::platform::Platform;
use openflow::prompt::build_prompt;
use openflow::settings::Settings;

#[test]
fn prompt_parts() {
    let mut s = Settings::default_for(Platform::Windows, "");
    let p = build_prompt(&s);
    assert!(p.starts_with("Você é um editor de ditado."));
    assert!(!p.contains("6. Grafias"));
    assert!(!p.contains("Escreva o texto final em"));
    assert!(p.ends_with(
        "Responda SOMENTE com o texto final, sem comentários.\nEstilo: coringa do dia a dia (resposta de conversa, WhatsApp, prompt para IA): texto natural com o tom e as palavras do falante preservados.\n\nTranscrição:\n"
    ));

    s.dictionary = vec![" Verus ".into(), "   ".into(), "Groq".into()];
    s.output_lang = "en".into();
    s.active_profile = "não existe".into();
    let p = build_prompt(&s);
    assert!(p.contains("6. Grafias obrigatórias quando essas palavras aparecerem: Verus, Groq.\n"));
    assert!(p.contains("Escreva o texto final em inglês, mantendo URLs, e-mails e nomes próprios intactos.\n"));
    assert!(p.ends_with("Estilo: texto natural corrigido, mantendo o tom do falante.\n\nTranscrição:\n"));

    // same output as speech language: no translation line; unknown code used as is
    s.output_lang = "pt".into();
    assert!(!build_prompt(&s).contains("Escreva o texto final em"));
    s.output_lang = "fr".into();
    assert!(build_prompt(&s).contains("Escreva o texto final em fr,"));
}
