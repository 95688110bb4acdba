use std::io::Write;

use pncp_minerador::attachments::{read_archive, ArchiveEntry, AttachmentReader, Part};
use pncp_minerador::pattern::KeywordFilter;
use pncp_minerador::triage::{
    attachment_text, triage, DocumentFetch, FetchOutcome, QueueRecord, Tally, Triage,
    LAST_DOCUMENT,
};

fn zip_of(files: &[(&str, &[u8])]) -> Vec<u8> {
    let mut w = zip::ZipWriter::new(std::io::Cursor::new(Vec::new()));
    for (name, data) in files {
        w.start_file(*name, zip::write::SimpleFileOptions::default()).unwrap();
        w.write_all(data).unwrap();
    }
    w.finish().unwrap().into_inner()
}

fn entry(name: &str, data: Option<&[u8]>) -> ArchiveEntry {
    ArchiveEntry { name: name.to_string(), data: data.map(|d| d.to_vec()) }
}

fn reader() -> AttachmentReader {
    AttachmentReader::new().expect("the tag pattern compiles")
}

#[test]
fn pdf_entries_by_lower_case_name() {
    let r = reader();
    match r.parts_of_entry(entry("Anexos/EDITAL.PDF", Some(b"%PDF-1.4"))).as_slice() {
        [Part::Pdf(d)] => assert_eq!(d, b"%PDF-1.4"),
        _ => panic!("expected one PDF part"),
    }
    assert!(r.parts_of_entry(entry("edital.pdf", None)).is_empty());
    assert!(r.parts_of_entry(entry("edital.pdf.txt", Some(b"x"))).is_empty());
}

#[test]
fn word_document_text_without_tags() {
    let r = reader();
    let xml = "<w:document><w:t>Olá</w:t><w:t>mundo</w:t></w:document>".as_bytes();
    match r.parts_of_entry(entry("WORD/Document.xml", Some(xml))).as_slice() {
        [Part::Text(t)] => assert_eq!(t, "  Olá  mundo  "),
        _ => panic!("expected one text part"),
    }
    assert!(r.parts_of_entry(entry("word/document.xml", Some(&[0xff, 0xfe]))).is_empty());
    assert!(r.parts_of_entry(entry("word/document.xml", None)).is_empty());
    assert!(r.parts_of_entry(entry("word/styles.xml", Some(b"<a/>"))).is_empty());
}

#[test]
fn entries_keep_archive_order() {
    let r = reader();
    let parts = r.parts_of_entries(vec![
        entry("b.pdf", Some(b"B")),
        entry("leia.txt", Some(b"t")),
        entry("word/document.xml", Some(b"<p>x</p>")),
        entry("a.pdf", Some(b"A")),
    ]);
    assert_eq!(parts.len(), 3);
    assert!(matches!(&parts[0], Part::Pdf(d) if d == b"B"));
    assert!(matches!(&parts[1], Part::Text(t) if t == " x "));
    assert!(matches!(&parts[2], Part::Pdf(d) if d == b"A"));
}

#[test]
fn download_that_is_not_zip_is_a_pdf() {
    let parts = reader().parts_of_download(b"%PDF-1.7 ...".to_vec());
    assert!(matches!(parts.as_slice(), [Part::Pdf(d)] if d == b"%PDF-1.7 ..."));
    let parts = reader().parts_of_download(Vec::new());
    assert!(matches!(parts.as_slice(), [Part::Pdf(d)] if d.is_empty()));
}

#[test]
fn zip_download_is_read_entry_by_entry() {
    let bytes = zip_of(&[
        ("Edital.pdf", b"%PDF-a"),
        ("leia-me.txt", b"nada"),
        ("word/document.xml", b"<w:t>software</w:t>"),
    ]);
    let entries = read_archive(bytes.clone()).expect("a valid archive");
    assert_eq!(entries.len(), 3);
    assert_eq!(entries[0].name, "Edital.pdf");
    assert_eq!(entries[0].data.as_deref(), Some(&b"%PDF-a"[..]));
    assert_eq!(entries[1].name, "leia-me.txt");
    let parts = reader().parts_of_download(bytes);
    assert_eq!(parts.len(), 2);
    assert!(matches!(&parts[0], Part::Pdf(d) if d == b"%PDF-a"));
    assert!(matches!(&parts[1], Part::Text(t) if t == " software "));
}

#[test]
fn broken_zip_gives_nothing() {
    let bytes = b"PK\x03\x04 not really an archive".to_vec();
    assert!(read_archive(bytes.clone()).is_none());
    assert!(reader().parts_of_download(bytes).is_empty());
}

#[test]
fn document_urls_and_defaults() {
    let rec = QueueRecord {
        orgao_cnpj: Some("123".to_string()),
        ano: Some("2025".to_string()),
        numero_sequencial: Some("7".to_string()),
        orgao_nome: None,
        title: None,
    };
    assert_eq!(rec.document_url(3), "https://pncp.gov.br/pncp-api/v1/orgaos/123/compras/2025/7/arquivos/3");
    assert_eq!(rec.orgao_nome(), "N/A");
    assert_eq!(rec.title(), "");
    let empty = QueueRecord { orgao_cnpj: None, ano: None, numero_sequencial: None, orgao_nome: None, title: None };
    assert_eq!(empty.document_url(10), "https://pncp.gov.br/pncp-api/v1/orgaos//compras///arquivos/10");
}

#[test]
fn documents_are_asked_in_order_up_to_ten() {
    let r = reader();
    let mut f = DocumentFetch::new();
    let mut asked = Vec::new();
    while let Some(n) = f.next_request() {
        asked.push(n);
        let parts = f.take_outcome(FetchOutcome::RequestFailed, &r);
        assert!(parts.is_empty());
    }
    assert_eq!(asked, (1..=LAST_DOCUMENT).collect::<Vec<_>>());
}

#[test]
fn a_refused_document_ends_the_asking() {
    let r = reader();
    let mut f = DocumentFetch::new();
    assert_eq!(f.next_request(), Some(1));
    let parts = f.take_outcome(FetchOutcome::Body(b"%PDF".to_vec()), &r);
    assert_eq!(parts.len(), 1);
    assert_eq!(f.next_request(), Some(2));
    assert!(f.take_outcome(FetchOutcome::BodyUnreadable, &r).is_empty());
    assert_eq!(f.next_request(), Some(3));
    assert!(f.take_outcome(FetchOutcome::NotSuccess, &r).is_empty());
    assert_eq!(f.next_request(), None);
}

#[test]
fn attachment_text_spaces_each_part() {
    assert_eq!(attachment_text(&vec!["a".to_string(), "".to_string(), "b c".to_string()]), "a  b c ");
    assert_eq!(attachment_text(&vec![]), "");
}

#[test]
fn triage_verdicts() {
    let w = vec!["software".to_string()];
    let u = vec!["obra".to_string()];
    let f = KeywordFilter::for_attachments(&w, &u).unwrap();
    match triage(&f, "", "Edital 1") {
        Triage::ManualReview(t) => assert_eq!(t, "⚠️ [REVER NO OLHO] Edital 1"),
        _ => panic!("expected a manual review"),
    }
    assert!(matches!(triage(&f, "licença de software ", "t"), Triage::Approved));
    assert!(matches!(triage(&f, "software para obra ", "t"), Triage::Barred));
    assert!(matches!(triage(&f, " ", "t"), Triage::Barred));
}

#[test]
fn tally_counts_every_verdict() {
    let mut t = Tally::new();
    t.record(&Triage::Approved);
    t.record(&Triage::Barred);
    t.record(&Triage::ManualReview("x".to_string()));
    assert_eq!(t.kept, 2);
    assert_eq!(t.barred, 1);
}
