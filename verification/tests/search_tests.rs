use pncp_minerador::pattern::KeywordFilter;
use pncp_minerador::search::{
    notice_page_url, outdated, search_page_url, JsonScalar, PageOutcome, Screening, SearchHit,
    SearchRun, LAST_PAGE,
};

fn s(x: &str) -> Option<String> {
    Some(x.to_string())
}

fn hit(title: &str, date: &str) -> SearchHit {
    SearchHit {
        id: s("id-1"),
        title: s(title),
        description: None,
        descricao: s("Contratação de SISTEMA"),
        informacao_complementar: None,
        orgao_nome: s("Prefeitura"),
        orgao_cnpj: s("12345678000199"),
        ano: JsonScalar::Unsigned(2025),
        numero_sequencial: JsonScalar::Text("42".to_string()),
        item_url: s("/compras/12345678000199/2025/42"),
        data_atualizacao_pncp: s(date),
        created_at: None,
        data_inicio_vigencia: None,
    }
}

fn filter(wanted: &[&str], unwanted: &[&str]) -> KeywordFilter {
    let w: Vec<String> = wanted.iter().map(|t| t.to_string()).collect();
    let u: Vec<String> = unwanted.iter().map(|t| t.to_string()).collect();
    KeywordFilter::for_search(&w, &u).unwrap()
}

#[test]
fn search_url_encodes_keyword_and_state() {
    assert_eq!(
        search_page_url("  licença software ", "sp", 3),
        "https://pncp.gov.br/api/search/?q=licença%20software&tipos_documento=edital&ordenacao=-data&pagina=3&tam_pagina=10&status=recebendo_proposta&ufs=SP"
    );
    assert_eq!(
        search_page_url("ti", "todos", 1),
        "https://pncp.gov.br/api/search/?q=ti&tipos_documento=edital&ordenacao=-data&pagina=1&tam_pagina=10&status=recebendo_proposta"
    );
    assert_eq!(
        search_page_url("", "", 2000),
        "https://pncp.gov.br/api/search/?q=&tipos_documento=edital&ordenacao=-data&pagina=2000&tam_pagina=10&status=recebendo_proposta"
    );
}

#[test]
fn notice_url_rewrites_or_builds() {
    assert_eq!(
        notice_page_url("/compras/1/2025/42", "1", "2025", "42"),
        "https://pncp.gov.br/app/editais/1/2025/42"
    );
    assert_eq!(
        notice_page_url("", "99", "2026", "0"),
        "https://pncp.gov.br/app/editais/99/2026/0"
    );
}

#[test]
fn dates_older_than_the_limit() {
    assert!(outdated("2025-01-31T12:00:00", "2025-02-01"));
    assert!(!outdated("2025-02-01T00:00:00", "2025-02-01"));
    assert!(!outdated("2025-03-01", "2025-02-01"));
    assert!(!outdated("2025-01", "2025-02-01"));
    assert!(!outdated("", "2025-02-01"));
}

#[test]
fn reference_date_takes_the_first_present() {
    let mut h = hit("t", "2025-05-05");
    assert_eq!(h.reference_date(), "2025-05-05");
    h.data_atualizacao_pncp = None;
    h.created_at = s("2024-04-04");
    h.data_inicio_vigencia = s("2023-03-03");
    assert_eq!(h.reference_date(), "2024-04-04");
    h.created_at = None;
    assert_eq!(h.reference_date(), "2023-03-03");
    h.data_inicio_vigencia = None;
    assert_eq!(h.reference_date(), "");
}

#[test]
fn cuttable_dates() {
    assert!(hit("t", "2025-05-05T10").date_is_cuttable());
    assert!(hit("t", "curta").date_is_cuttable());
    assert!(!hit("t", "2025-05-0é").date_is_cuttable());
}

#[test]
fn metadata_is_lower_case_and_spaced() {
    let h = hit("Compra de SOFTWARE", "2025-05-05");
    assert_eq!(h.metadata_text(), "compra de software  contratação de sistema ");
}

#[test]
fn queue_entry_fields_and_defaults() {
    let e = hit("Edital X", "2025-05-05").queue_entry();
    assert_eq!(e.id, "id-1");
    assert_eq!(e.orgao_cnpj, "12345678000199");
    assert_eq!(e.ano, "2025");
    assert_eq!(e.numero_sequencial, "42");
    assert_eq!(e.orgao_nome, "Prefeitura");
    assert_eq!(e.title, "Edital X");
    assert_eq!(e.item_url, "https://pncp.gov.br/app/editais/12345678000199/2025/42");

    let bare = SearchHit {
        id: None,
        title: None,
        description: None,
        descricao: None,
        informacao_complementar: None,
        orgao_nome: None,
        orgao_cnpj: None,
        ano: JsonScalar::Other,
        numero_sequencial: JsonScalar::Other,
        item_url: s("/outra/rota"),
        data_atualizacao_pncp: None,
        created_at: None,
        data_inicio_vigencia: None,
    };
    let e = bare.queue_entry();
    assert_eq!(e.id, "");
    assert_eq!(e.ano, "2026");
    assert_eq!(e.numero_sequencial, "0");
    assert_eq!(e.orgao_nome, "Órgão Omitido");
    assert_eq!(e.title, "");
    assert_eq!(e.item_url, "https://pncp.gov.br/app/editais//2026/0");
}

#[test]
fn screening_outcomes() {
    let f = filter(&["software"], &["obra"]);
    assert!(matches!(hit("Software", "2024-01-01").screen(&f, "2025-01-01"), Screening::Outdated));
    assert!(matches!(hit("Obra de software", "2025-06-01").screen(&f, "2025-01-01"), Screening::Rejected));
    assert!(matches!(hit("Caneta", "2025-06-01").screen(&f, "2025-01-01"), Screening::Rejected));
    match hit("Software", "2025-06-01").screen(&f, "2025-01-01") {
        Screening::Queued(e) => assert_eq!(e.title, "Software"),
        _ => panic!("expected the hit to be queued"),
    }
    // a date shorter than ten bytes is never outdated
    assert!(matches!(hit("Software", "2020").screen(&f, "2025-01-01"), Screening::Queued(_)));
}

#[test]
fn search_run_pages() {
    let f = filter(&["software"], &[]);
    let mut run = SearchRun::new();
    assert_eq!(run.next_request(), Some(1));
    let out = run.take_page(PageOutcome::Unavailable, &f, "2025-01-01");
    assert!(out.is_empty());
    assert_eq!(run.next_request(), Some(2));
    let page = vec![hit("Software A", "2025-06-01"), hit("Cadeira", "2025-06-01"), hit("Software B", "2024-06-01")];
    let out = run.take_page(PageOutcome::Hits(page), &f, "2025-01-01");
    assert_eq!(out.len(), 1);
    assert_eq!(out[0].title, "Software A");
    assert_eq!(run.read_count(), 3);
    assert_eq!(run.queued_count(), 1);
    assert_eq!(run.ignored_count(), 2);
    assert_eq!(run.next_request(), Some(3));
    let out = run.take_page(PageOutcome::Hits(vec![]), &f, "2025-01-01");
    assert!(out.is_empty());
    assert_eq!(run.next_request(), None);
    assert_eq!(run.read_count(), 3);
}

#[test]
fn search_run_stops_after_the_last_page() {
    let f = filter(&[], &[]);
    let mut run = SearchRun::new();
    let mut asked = 0u64;
    while let Some(p) = run.next_request() {
        asked += 1;
        assert_eq!(p, asked);
        run.take_page(PageOutcome::Unavailable, &f, "");
    }
    assert_eq!(asked, LAST_PAGE);
}
