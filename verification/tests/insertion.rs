use openflow::insertion::InsertionOrder;

fn ok(s: &str) -> Result<String, String> {
    Ok(s.to_string())
}

fn err(s: &str) -> Result<String, String> {
    Err(s.to_string())
}

#[test]
fn resultados_invertidos_sao_inseridos_na_ordem_original() {
    let mut q = InsertionOrder::new();
    let first = q.register();
    let second = q.register();
    assert_eq!((first, second), (0, 1));
    // the second finishes while the first is still processing: nothing goes out
    assert!(q.complete(second, ok("segundo")).is_empty());
    assert_eq!(
        q.complete(first, ok("primeiro")),
        vec![(0, ok("primeiro")), (1, ok("segundo"))]
    );
}

#[test]
fn falhas_de_processamento_e_colagem_nao_bloqueiam_os_seguintes() {
    let mut q = InsertionOrder::new();
    let ids: Vec<u64> = (0..4).map(|_| q.register()).collect();
    assert_eq!(ids, vec![0, 1, 2, 3]);
    // registering goes on while the first place waits
    assert!(q.complete(3, ok("último")).is_empty());
    assert!(q.complete(2, ok("falha ao colar")).is_empty());
    // a worker that ended without a result is recorded as an error
    assert!(q.complete(1, err("interrompido")).is_empty());
    let ready = q.complete(0, err("transcrição falhou"));
    // the paste of each released text, in order; a failed paste does not stop the rest
    let finished: Vec<(u64, Result<String, String>)> = ready
        .into_iter()
        .map(|(id, r)| {
            (id, r.and_then(|t| if t == "falha ao colar" { Err("clipboard".to_string()) } else { Ok(t) }))
        })
        .collect();
    assert_eq!(
        finished,
        vec![
            (0, err("transcrição falhou")),
            (1, err("interrompido")),
            (2, err("clipboard")),
            (3, ok("último")),
        ]
    );
}

#[test]
fn in_turn_outcome_goes_out_at_once_and_numbering_continues() {
    let mut q = InsertionOrder::new();
    let a = q.register();
    assert_eq!(q.complete(a, ok("a")), vec![(0, ok("a"))]);
    assert!(q.can_register());
    let b = q.register();
    let c = q.register();
    assert_eq!((b, c), (1, 2));
    assert_eq!(q.complete(b, ok("b")), vec![(1, ok("b"))]);
    assert_eq!(q.complete(c, err("x")), vec![(2, err("x"))]);
}
