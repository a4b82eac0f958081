use openflow::gemini::{
    erro_e_definitivo, gemini_key, gemini_reply_text, http_failed, retry_plan, send_failure_code,
    GeminiSession, RetryPlan,
    FALLBACK_MODEL,
};

#[test]
fn fallback_so_troca_o_modelo_depois_de_travado() {
    let mut session = GeminiSession::new();
    assert_eq!(session.modelo_efetivo("gemini-3.5-flash-lite"), "gemini-3.5-flash-lite");
    session.lock_fallback();
    assert_eq!(session.modelo_efetivo("gemini-3.5-flash-lite"), FALLBACK_MODEL);
}

#[test]
fn so_404_rebaixa_a_sessao_inteira() {
    assert!(erro_e_definitivo(404), "404 = a chave não tem o modelo, é definitivo");
    // 408 (teto estourado), 429 (cota do minuto), 503 (saturado) e 0 (rede)
    // passam; travar em qualquer um deles rebaixaria a sessão por um pico
    for transitorio in [0u16, 408, 429, 503, 500] {
        assert!(!erro_e_definitivo(transitorio), "{transitorio} não pode travar a sessão");
    }
}

#[test]
fn only_a_404_answered_by_the_reserve_locks_the_session() {
    let mut session = GeminiSession::new();
    for congestion in [429u16, 503] {
        session.fallback_answered(congestion);
        assert!(!session.is_locked());
        assert_eq!(session.modelo_efetivo("m"), "m");
    }
    session.fallback_answered(404);
    assert!(session.is_locked());
    assert_eq!(session.modelo_efetivo("m"), "gemini-flash-lite-latest");
    // never unlocked again
    session.fallback_answered(503);
    assert!(session.is_locked());
}

#[test]
fn retry_plans() {
    assert_eq!(retry_plan("gemini-3.5-flash-lite", 408), RetryPlan::SameModel);
    assert_eq!(retry_plan(FALLBACK_MODEL, 408), RetryPlan::SameModel);
    for code in [404u16, 429, 503] {
        assert_eq!(retry_plan("gemini-3.5-flash-lite", code), RetryPlan::Fallback);
        // the reserve model has no reserve
        assert_eq!(retry_plan(FALLBACK_MODEL, code), RetryPlan::GiveUp);
    }
    for code in [0u16, 400, 500] {
        assert_eq!(retry_plan("gemini-3.5-flash-lite", code), RetryPlan::GiveUp);
    }
}

#[test]
fn reply_text_and_key() {
    let parts = vec!["  Olá, ".to_string(), "mundo. ".to_string()];
    assert_eq!(gemini_reply_text(&parts).as_deref(), Some("Olá, mundo."));
    assert_eq!(gemini_reply_text(&vec![" \n ".to_string()]), None);
    assert_eq!(gemini_reply_text(&Vec::new()), None);
    assert_eq!(gemini_key(&Some("k1".into()), Some("env".into())).as_deref(), Some("k1"));
    assert_eq!(gemini_key(&Some(String::new()), Some("env".into())).as_deref(), Some("env"));
    assert_eq!(gemini_key(&None, None), None);
}

#[test]
fn failure_codes_of_a_call() {
    assert_eq!(send_failure_code(true), 408);
    assert_eq!(send_failure_code(false), 0);
    assert_eq!(retry_plan("gemini-2.5-flash", send_failure_code(true)), RetryPlan::SameModel);
    assert!(!http_failed(200));
    assert!(!http_failed(204));
    assert!(http_failed(199));
    assert!(http_failed(300));
    assert!(http_failed(404));
}
