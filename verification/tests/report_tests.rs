use pncp_minerador::history::{approved_listing_json, saved_history_json};
use pncp_minerador::report::{dashboard_html, row_html, ReportEntry};

const HEAD: &str = "<!DOCTYPE html>\n<html lang='pt-BR'>\n<head>\n    <meta charset='UTF-8'>\n    <title>🛡️ Dashboard PNCP Minerador</title>\n    <style>\n        body { font-family: sans-serif; background: #121214; color: #e1e1e6; margin: 40px; }\n        table { width: 100%; border-collapse: collapse; margin-top: 20px; background: #202024; border-radius: 8px; overflow: hidden; }\n        th { background: #00875f; color: white; text-align: left; padding: 15px; }\n    </style>\n</head>\n<body>\n    <h1 style='color:#00b37e;'>🛡️ Relatório do Caçador PNCP</h1>\n    <p style='color:#8d8d99;'>Painel de editais de software aprovados no pente fino:</p>\n    <table>\n        <thead>\n            <tr>\n                <th>Edital</th>\n                <th>Órgão Público</th>\n                <th>Ação</th>\n            </tr>\n        </thead>\n        <tbody>\n";
const NO_ROWS: &str = "<tr><td colspan='3' style='padding:20px; text-align:center; color:#7c7c8a;'>Nenhum edital elegível hoje.</td></tr>\n";
const FOOT: &str = "        </tbody>\n    </table>\n</body>\n</html>";

fn expected_row(t: &str, o: &str, u: &str) -> String {
    format!(
        "<tr>
                        <td style='padding:12px; border-bottom:1px solid #29292e;'><b>{}</b></td>
                        <td style='padding:12px; border-bottom:1px solid #29292e; color:#a8a8b3;'>{}</td>
                        <td style='padding:12px; border-bottom:1px solid #29292e;'>
                            <a href='{}' target='_blank' style='color:#00b37e; text-decoration:none; font-weight:bold;'>Abrir no PNCP ➔</a>
                        </td>
                    </tr>\n",
        t, o, u
    )
}

#[test]
fn row_layout() {
    assert_eq!(row_html("Edital <1>", "Órgão", "https://x/y"), expected_row("Edital <1>", "Órgão", "https://x/y"));
}

#[test]
fn empty_dashboard_says_so() {
    assert_eq!(dashboard_html(&vec![]), format!("{}{}{}", HEAD, NO_ROWS, FOOT));
}

#[test]
fn dashboard_has_one_row_per_entry_with_defaults() {
    let entries = vec![
        ReportEntry { title: Some("A".to_string()), orgao_nome: Some("B".to_string()), item_url: Some("C".to_string()) },
        ReportEntry { title: None, orgao_nome: None, item_url: None },
    ];
    let expected = format!(
        "{}{}{}{}",
        HEAD,
        expected_row("A", "B", "C"),
        expected_row("Edital Sem Título", "Órgão Omitido", "#"),
        FOOT
    );
    assert_eq!(dashboard_html(&entries), expected);
    assert!(!dashboard_html(&entries).contains("Nenhum edital"));
}

#[test]
fn saved_history_keeps_lines_as_they_are() {
    assert_eq!(saved_history_json("{\"a\":1}\n{\"b\":2}\n"), "[{\"a\":1},{\"b\":2}]");
    assert_eq!(saved_history_json(" {\"a\":1} \n"), "[ {\"a\":1} ]");
    // a blank line after the last object still earns it a comma
    assert_eq!(saved_history_json("{\"a\":1}\n  \n"), "[{\"a\":1},]");
    assert_eq!(saved_history_json("\n\n{\"a\":1}"), "[{\"a\":1}]");
    assert_eq!(saved_history_json(""), "[]");
}

#[test]
fn approved_listing_trims_and_skips_blank_lines() {
    assert_eq!(approved_listing_json("  {\"a\":1} \n\n {\"b\":2}\r\n"), "[{\"a\":1},{\"b\":2}]");
    assert_eq!(approved_listing_json(""), "[]");
    assert_eq!(approved_listing_json(" \n\t\n"), "[]");
}

#[test]
fn both_listings_agree_on_clean_files() {
    let content = "{\"a\":1}\n{\"b\":2}\n{\"c\":3}\n";
    assert_eq!(saved_history_json(content), approved_listing_json(content));
    let blank = "\n  \n";
    assert_eq!(saved_history_json(blank), "[]");
    assert_eq!(approved_listing_json(blank), "[]");
}
