use openflow::history::{entry_hit_lowered, select_history, select_history_lowered, HistoryText};

fn e(raw: &str, fin: &str) -> HistoryText {
    HistoryText { raw: raw.into(), final_text: fin.into() }
}

#[test]
fn history_search_newest_first() {
    let es = vec![e("um", "Um."), e("dois pix", "Dois."), e("três", "Três PIX."), e("quatro", "Quatro.")];
    assert_eq!(select_history(&es, None, None), vec![3, 2, 1, 0]);
    assert_eq!(select_history(&es, Some("Pix".into()), None), vec![2, 1]);
    assert_eq!(select_history(&es, Some("".into()), Some(2)), vec![3, 2]);
    assert_eq!(select_history(&es, Some("cinco".into()), None), Vec::<usize>::new());
    assert_eq!(select_history(&es, None, Some(0)), Vec::<usize>::new());
    let many: Vec<HistoryText> = (0..60).map(|i| e(&i.to_string(), "x")).collect();
    assert_eq!(select_history(&many, None, None).len(), 50);
}

#[test]
fn history_search_on_given_lower_case_query() {
    let es = vec![e("Olá Mundo", "Olá, mundo."), e("outra", "Outra coisa")];
    assert_eq!(select_history_lowered(&es, "mundo", None), vec![0]);
    // the query is used as given: an upper-case query finds no lower-cased text
    assert_eq!(select_history_lowered(&es, "MUNDO", None), Vec::<usize>::new());
    assert_eq!(select_history_lowered(&es, "", Some(1)), vec![1]);
    assert_eq!(select_history(&es, None, None), vec![1, 0]);
    assert!(entry_hit_lowered("abc", "xyz", &['y']));
    assert!(!entry_hit_lowered("abc", "xyz", &['q']));
    assert!(entry_hit_lowered("abc", "xyz", &[]));
}
