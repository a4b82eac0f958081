use openflow::credit::{is_credit_tail, is_hallucination, is_stock_hallucination, strip_credit};
use openflow::errors::{friendly_error, friendly_error_lowered};

/// casos reais do history.jsonl: o Whisper assina o fim da transcrição
#[test]
fn assinatura_de_legenda_nao_chega_ao_texto_final() {
    for (entrada, esperado) in [
        (
            "Mas isso será em um segundo momento. Legenda Adriana Zanotto",
            "Mas isso será em um segundo momento.",
        ),
        ("Fica bom para você? Legenda Adriana Zanotto", "Fica bom para você?"),
        ("Tem texto. Legenda: Adriana Zanotto.", "Tem texto."),
        ("Foi ótimo. Legendas pela comunidade Amara.org", "Foi ótimo."),
        // "legenda" dita pelo falante no meio da frase: preservar
        (
            "Quero as tabelas com título, legenda, nome das variáveis.",
            "Quero as tabelas com título, legenda, nome das variáveis.",
        ),
        // frase final curta que só começa parecido: preservar
        ("Terminei o vídeo. Legendei tudo ontem.", "Terminei o vídeo. Legendei tudo ontem."),
        ("Sem assinatura nenhuma aqui.", "Sem assinatura nenhuma aqui."),
    ] {
        assert_eq!(strip_credit(entrada), esperado, "entrada: {entrada:?}");
    }
    // sozinha, sem frase anterior, cai no guarda de alucinação (0,8 s e 30 s de áudio)
    assert!(is_hallucination("Legenda Adriana Zanotto", 800));
    assert!(!is_hallucination("Legenda Adriana Zanotto", 30_000));
}

#[test]
fn erros_viram_frases_curtas() {
    assert_eq!(friendly_error("Groq HTTP 401: {\"error\":...}"), "Chave de API inválida ou ausente");
    assert_eq!(friendly_error("Groq HTTP 429: rate limit"), "Limite da API atingido");
    assert_eq!(friendly_error("microfone 'Yeti' não encontrado"), "Microfone não encontrado");
    assert_eq!(friendly_error("transcrição vazia"), "Nada foi dito");
    // sem regra conhecida: mostra o original, curto o bastante para caber
    assert!(friendly_error(&"x".repeat(200)).chars().count() <= 70);
}

#[test]
fn credit_only_after_last_sentence_end() {
    // trailing whitespace is always dropped
    assert_eq!(strip_credit("Tudo certo.   \n"), "Tudo certo.");
    // no sentence end: nothing to strip
    assert_eq!(strip_credit("Legenda Adriana Zanotto"), "Legenda Adriana Zanotto");
    // more than five words after the last sentence: kept
    assert_eq!(
        strip_credit("Fim. Legenda de um texto bem comprido demais aqui"),
        "Fim. Legenda de um texto bem comprido demais aqui"
    );
    // the dot of "Amara.org" is not a sentence end
    assert_eq!(strip_credit("Ok! subtitles by amara.org"), "Ok!");
    // upper-case credit word: compared lower-cased
    assert_eq!(strip_credit("Certo? LEGENDA FULANO"), "Certo?");
    // the result is always a prefix of the input
    let s = "Uma frase. Legendado por alguém.";
    assert!(s.starts_with(&strip_credit(s)));
    assert_eq!(strip_credit(""), "");
}

#[test]
fn silence_hallucinations_only_on_short_audio() {
    assert!(is_hallucination("Obrigado!", 1500));
    assert!(is_hallucination("  Thank you.  ", 1999));
    assert!(is_hallucination("E aí?", 500));
    assert!(!is_hallucination("Obrigado!", 2000));
    assert!(!is_hallucination("Obrigado pela ajuda", 1500));
    assert!(!is_hallucination("Tudo bem", 1000));
}

#[test]
fn friendly_error_order_and_truncation() {
    assert_eq!(friendly_error("sem microfone padrão"), "Microfone não encontrado");
    assert_eq!(friendly_error("Gemini quota exceeded"), "Limite da API atingido");
    assert_eq!(friendly_error("chave Groq ausente"), "Chave de API inválida ou ausente");
    assert_eq!(friendly_error("operation timed out"), "Sem conexão com o serviço");
    assert_eq!(friendly_error("error trying to CONNECT"), "Sem conexão com o serviço");
    assert_eq!(
        friendly_error("transcrição local não ficou pronta em 120s"),
        "Transcrição local indisponível"
    );
    assert_eq!(friendly_error("alucinação de silêncio descartada: \"tchau\""), "Nada foi dito");
    assert_eq!(friendly_error("clipboard busy"), "Não consegui colar o texto");
    // a 429 message that also mentions a key: the quota rule comes first
    assert_eq!(friendly_error("HTTP 429 for chave X"), "Limite da API atingido");
    assert_eq!(friendly_error("algo estranho"), "algo estranho");
    let long: String = "é".repeat(100);
    assert_eq!(friendly_error(&long), "é".repeat(70));
}

#[test]
fn decisions_on_given_lower_case_text() {
    // the rules read the lower-cased form they are given
    assert_eq!(friendly_error_lowered("X", "http 429"), "Limite da API atingido");
    assert_eq!(friendly_error_lowered("Erro qualquer", "erro qualquer"), "Erro qualquer");
    assert!(is_credit_tail("legenda adriana zanotto"));
    assert!(!is_credit_tail("legenda um dois três quatro cinco seis"));
    assert!(is_credit_tail("legendas pela comunidade amara.org"));
    assert!(!is_credit_tail("Legenda Adriana"));
    assert!(is_stock_hallucination("obrigado!", 900));
    assert!(!is_stock_hallucination("obrigado!", 2000));
    assert!(!is_stock_hallucination("Obrigado!", 900));
    assert!(is_stock_hallucination("  legendas, by someone ", 100));
}
