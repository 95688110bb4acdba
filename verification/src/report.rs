//! The third stage: the HTML dashboard of the approved notices.
use vstd::prelude::*;

use crate::search::text_or;
use crate::text::owned;

verus! {

/// An approved notice as the dashboard reads it. A field is `Some` exactly
/// when the notice's JSON holds a string under that key.
pub struct ReportEntry {
    pub title: Option<String>,
    pub orgao_nome: Option<String>,
    pub item_url: Option<String>,
}

/// Everything before the first row: the page head, the title and the
/// table head.
pub open spec fn dashboard_head() -> Seq<char> {
    "<!DOCTYPE html>\n<html lang='pt-BR'>\n<head>\n    <meta charset='UTF-8'>\n    <title>🛡️ Dashboard PNCP Minerador</title>\n    <style>\n        body { font-family: sans-serif; background: #121214; color: #e1e1e6; margin: 40px; }\n        table { width: 100%; border-collapse: collapse; margin-top: 20px; background: #202024; border-radius: 8px; overflow: hidden; }\n        th { background: #00875f; color: white; text-align: left; padding: 15px; }\n    </style>\n</head>\n<body>\n    <h1 style='color:#00b37e;'>🛡️ Relatório do Caçador PNCP</h1>\n    <p style='color:#8d8d99;'>Painel de editais de software aprovados no pente fino:</p>\n    <table>\n        <thead>\n            <tr>\n                <th>Edital</th>\n                <th>Órgão Público</th>\n                <th>Ação</th>\n            </tr>\n        </thead>\n        <tbody>\n"@
}

/// The row shown when there is no notice.
pub open spec fn dashboard_no_rows() -> Seq<char> {
    "<tr><td colspan='3' style='padding:20px; text-align:center; color:#7c7c8a;'>Nenhum edital elegível hoje.</td></tr>\n"@
}

/// Everything after the last row.
pub open spec fn dashboard_foot() -> Seq<char> {
    "        </tbody>\n    </table>\n</body>\n</html>"@
}

/// The table row of one notice: its title in bold, the purchasing body,
/// and a link to its page. The texts go in as they are, unescaped.
pub open spec fn dashboard_row(title: Seq<char>, orgao: Seq<char>, url: Seq<char>) -> Seq<char> {
    "<tr>\n                        <td style='padding:12px; border-bottom:1px solid #29292e;'><b>"@
        + title
        + "</b></td>\n                        <td style='padding:12px; border-bottom:1px solid #29292e; color:#a8a8b3;'>"@
        + orgao
        + "</td>\n                        <td style='padding:12px; border-bottom:1px solid #29292e;'>\n                            <a href='"@
        + url
        + "' target='_blank' style='color:#00b37e; text-decoration:none; font-weight:bold;'>Abrir no PNCP ➔</a>\n                        </td>\n                    </tr>\n"@
}

/// The row of an entry, with `Edital Sem Título`, `Órgão Omitido` and `#`
/// standing in for a missing title, body and address.
pub open spec fn entry_row(e: ReportEntry) -> Seq<char> {
    dashboard_row(
        text_or(e.title, "Edital Sem Título"@),
        text_or(e.orgao_nome, "Órgão Omitido"@),
        text_or(e.item_url, "#"@),
    )
}

/// The rows of the entries, in order.
pub open spec fn dashboard_rows(entries: Seq<ReportEntry>) -> Seq<char>
    decreases entries.len(),
{
    if entries.len() == 0 {
        seq![]
    } else {
        dashboard_rows(entries.drop_last()) + entry_row(entries.last())
    }
}

/// The whole dashboard: head, one row per entry (or the "no notice" row
/// when there is none), foot.
pub open spec fn dashboard(entries: Seq<ReportEntry>) -> Seq<char> {
    dashboard_head() + dashboard_rows(entries) + (if entries.len() == 0 {
        dashboard_no_rows()
    } else {
        seq![]
    }) + dashboard_foot()
}

/// The table row of one notice.
pub fn row_html(title: &str, orgao: &str, url: &str) -> (r: String)
    ensures
        r@ == dashboard_row(title@, orgao@, url@),
{
    let mut r = owned(
        "<tr>\n                        <td style='padding:12px; border-bottom:1px solid #29292e;'><b>",
    );
    r.append(title);
    r.append(
        "</b></td>\n                        <td style='padding:12px; border-bottom:1px solid #29292e; color:#a8a8b3;'>",
    );
    r.append(orgao);
    r.append(
        "</td>\n                        <td style='padding:12px; border-bottom:1px solid #29292e;'>\n                            <a href='",
    );
    r.append(url);
    r.append(
        "' target='_blank' style='color:#00b37e; text-decoration:none; font-weight:bold;'>Abrir no PNCP ➔</a>\n                        </td>\n                    </tr>\n",
    );
    r
}

impl ReportEntry {
    /// The table row of this entry.
    pub fn row(&self) -> (r: String)
        ensures
            r@ == entry_row(*self),
    {
        let title = match &self.title {
            Some(t) => t.as_str(),
            None => "Edital Sem Título",
        };
        let orgao = match &self.orgao_nome {
            Some(o) => o.as_str(),
            None => "Órgão Omitido",
        };
        let url = match &self.item_url {
            Some(u) => u.as_str(),
            None => "#",
        };
        row_html(title, orgao, url)
    }
}

/// The dashboard of the entries.
pub fn dashboard_html(entries: &Vec<ReportEntry>) -> (r: String)
    ensures
        r@ == dashboard(entries@),
{
    let mut r = owned(
        "<!DOCTYPE html>\n<html lang='pt-BR'>\n<head>\n    <meta charset='UTF-8'>\n    <title>🛡️ Dashboard PNCP Minerador</title>\n    <style>\n        body { font-family: sans-serif; background: #121214; color: #e1e1e6; margin: 40px; }\n        table { width: 100%; border-collapse: collapse; margin-top: 20px; background: #202024; border-radius: 8px; overflow: hidden; }\n        th { background: #00875f; color: white; text-align: left; padding: 15px; }\n    </style>\n</head>\n<body>\n    <h1 style='color:#00b37e;'>🛡️ Relatório do Caçador PNCP</h1>\n    <p style='color:#8d8d99;'>Painel de editais de software aprovados no pente fino:</p>\n    <table>\n        <thead>\n            <tr>\n                <th>Edital</th>\n                <th>Órgão Público</th>\n                <th>Ação</th>\n            </tr>\n        </thead>\n        <tbody>\n",
    );
    let mut i: usize = 0;
    while i < entries.len()
        invariant
            i <= entries.len(),
            r@ == dashboard_head() + dashboard_rows(entries@.take(i as int)),
        decreases entries.len() - i,
    {
        let row = entries[i].row();
        r.append(row.as_str());
        assert(entries@.take(i + 1).drop_last() =~= entries@.take(i as int));
        i = i + 1;
    }
    assert(entries@.take(entries.len() as int) =~= entries@);
    if entries.len() == 0 {
        r.append(
            "<tr><td colspan='3' style='padding:20px; text-align:center; color:#7c7c8a;'>Nenhum edital elegível hoje.</td></tr>\n",
        );
    } else {
        assert(r@ + Seq::<char>::empty() =~= r@);
    }
    r.append("        </tbody>\n    </table>\n</body>\n</html>");
    r
}

} // verus!
