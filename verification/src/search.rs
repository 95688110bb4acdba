//! The first stage: paging through the PNCP search API and putting the
//! notices that pass the keyword filter into the work queue.
use vstd::prelude::*;
use vstd::utf8::*;

use crate::pattern::KeywordFilter;
use crate::text::{
    bytes_before, contains, decimal, decimal_text, lowercase, owned, prefix_before, replace_text,
    replaced, same_text, trim, trimmed, unicode_lowercase, unicode_uppercase, uppercase,
    contains_text, decimal_value, ends_with, lemma_contains_middle, lemma_decimal_reads_back,
    lemma_ends_with_appended,
};

verus! {

/// A field of a JSON object that the logic reads either as an unsigned
/// integer or as a string.
pub enum JsonScalar {
    /// The field holds a JSON string.
    Text(String),
    /// The field holds a JSON number that fits a `u64`.
    Unsigned(u64),
    /// The field is missing or holds anything else.
    Other,
}

/// One item of the `items` array of a search page. A field is `Some`
/// exactly when the item holds a JSON string under that key.
pub struct SearchHit {
    pub id: Option<String>,
    pub title: Option<String>,
    pub description: Option<String>,
    pub descricao: Option<String>,
    pub informacao_complementar: Option<String>,
    pub orgao_nome: Option<String>,
    pub orgao_cnpj: Option<String>,
    pub ano: JsonScalar,
    pub numero_sequencial: JsonScalar,
    pub item_url: Option<String>,
    pub data_atualizacao_pncp: Option<String>,
    pub created_at: Option<String>,
    pub data_inicio_vigencia: Option<String>,
}

/// A notice put into the work queue.
pub struct QueueEntry {
    pub id: String,
    pub orgao_cnpj: String,
    pub ano: String,
    pub numero_sequencial: String,
    pub orgao_nome: String,
    pub title: String,
    pub item_url: String,
}

/// The texts of a [`QueueEntry`].
pub struct QueueEntryView {
    pub id: Seq<char>,
    pub orgao_cnpj: Seq<char>,
    pub ano: Seq<char>,
    pub numero_sequencial: Seq<char>,
    pub orgao_nome: Seq<char>,
    pub title: Seq<char>,
    pub item_url: Seq<char>,
}

impl View for QueueEntry {
    type V = QueueEntryView;

    open spec fn view(&self) -> QueueEntryView {
        QueueEntryView {
            id: self.id@,
            orgao_cnpj: self.orgao_cnpj@,
            ano: self.ano@,
            numero_sequencial: self.numero_sequencial@,
            orgao_nome: self.orgao_nome@,
            title: self.title@,
            item_url: self.item_url@,
        }
    }
}

/// The views of a sequence of queue entries.
pub open spec fn entry_views(v: Seq<QueueEntry>) -> Seq<QueueEntryView> {
    v.map_values(|e: QueueEntry| e@)
}

/// The string a field holds, or `default`.
pub open spec fn text_or(field: Option<String>, default: Seq<char>) -> Seq<char> {
    match field {
        Some(s) => s@,
        None => default,
    }
}

/// An unsigned number in decimal, else the string, else `default`.
pub open spec fn scalar_text(field: JsonScalar, default: Seq<char>) -> Seq<char> {
    match field {
        JsonScalar::Unsigned(n) => decimal(n as nat),
        JsonScalar::Text(s) => s@,
        JsonScalar::Other => default,
    }
}

/// The first date the hit carries: last update, else creation, else start
/// of validity, else the empty text.
pub open spec fn reference_date(hit: SearchHit) -> Seq<char> {
    match hit.data_atualizacao_pncp {
        Some(d) => d@,
        None => match hit.created_at {
            Some(d) => d@,
            None => text_or(hit.data_inicio_vigencia, seq![]),
        },
    }
}

/// The first ten bytes of a date can be cut off as a `&str`: the date is
/// shorter, or byte 10 starts a character.
pub open spec fn date_cuttable(date: Seq<char>) -> bool {
    encode_utf8(date).len() >= 10 ==> is_char_boundary(encode_utf8(date), 10)
}

/// A date is older than the limit when its first ten bytes (`AAAA-MM-DD`)
/// exist and come before the limit in byte order. A date shorter than ten
/// bytes is never older.
pub open spec fn is_outdated(date: Seq<char>, limit: Seq<char>) -> bool {
    encode_utf8(date).len() >= 10 && bytes_before(encode_utf8(date).take(10), encode_utf8(limit))
}

/// The text that the keyword filter reads: title, English description,
/// Portuguese description and complementary information, each in lower
/// case, separated by single spaces.
pub open spec fn metadata_text(hit: SearchHit) -> Seq<char> {
    unicode_lowercase(text_or(hit.title, seq![])) + " "@ + unicode_lowercase(
        text_or(hit.description, seq![]),
    ) + " "@ + unicode_lowercase(text_or(hit.descricao, seq![])) + " "@ + unicode_lowercase(
        text_or(hit.informacao_complementar, seq![]),
    )
}

/// The public page of a notice: the API's `/compras/` path rewritten to the
/// `/app/editais/` page where the path holds `/compras/`, else built from
/// CNPJ, year and sequence number.
pub open spec fn notice_url(path: Seq<char>, cnpj: Seq<char>, ano: Seq<char>, seq: Seq<char>) -> Seq<
    char,
> {
    if contains(path, "/compras/"@) {
        "https://pncp.gov.br"@ + replaced(path, "/compras/"@, "/app/editais/"@)
    } else {
        "https://pncp.gov.br/app/editais/"@ + cnpj + "/"@ + ano + "/"@ + seq
    }
}

/// The queue entry made from a hit.
pub open spec fn queue_entry_of(hit: SearchHit) -> QueueEntryView {
    let cnpj = text_or(hit.orgao_cnpj, seq![]);
    let ano = scalar_text(hit.ano, "2026"@);
    let seq = scalar_text(hit.numero_sequencial, "0"@);
    QueueEntryView {
        id: text_or(hit.id, seq![]),
        orgao_cnpj: cnpj,
        ano,
        numero_sequencial: seq,
        orgao_nome: text_or(hit.orgao_nome, "Órgão Omitido"@),
        title: text_or(hit.title, seq![]),
        item_url: notice_url(text_or(hit.item_url, seq![]), cnpj, ano, seq),
    }
}

/// A hit goes into the queue when it is not outdated and its metadata pass
/// the filter.
pub open spec fn hit_passes(filter: KeywordFilter, hit: SearchHit, limit: Seq<char>) -> bool {
    !is_outdated(reference_date(hit), limit) && filter.admits(metadata_text(hit))
}

/// The entries that a page of hits puts into the queue, in page order.
pub open spec fn queued_from(filter: KeywordFilter, hits: Seq<SearchHit>, limit: Seq<char>) -> Seq<
    QueueEntryView,
>
    decreases hits.len(),
{
    if hits.len() == 0 {
        seq![]
    } else {
        let before = queued_from(filter, hits.drop_last(), limit);
        if hit_passes(filter, hits.last(), limit) {
            before.push(queue_entry_of(hits.last()))
        } else {
            before
        }
    }
}

/// A page never puts more entries into the queue than it holds hits.
pub proof fn lemma_queued_within_page(filter: KeywordFilter, hits: Seq<SearchHit>, limit: Seq<char>)
    ensures
        queued_from(filter, hits, limit).len() <= hits.len(),
    decreases hits.len(),
{
    if hits.len() > 0 {
        lemma_queued_within_page(filter, hits.drop_last(), limit);
    }
}

// ---------------------------------------------------------------------------
// Laws of screening and queueing
// ---------------------------------------------------------------------------

/// The entries of two pieces of a page, one after the other, are the
/// entries of the whole page.
pub proof fn lemma_queued_concat(
    filter: KeywordFilter,
    a: Seq<SearchHit>,
    b: Seq<SearchHit>,
    limit: Seq<char>,
)
    ensures
        queued_from(filter, a + b, limit) == queued_from(filter, a, limit) + queued_from(
            filter,
            b,
            limit,
        ),
    decreases b.len(),
{
    if b.len() == 0 {
        assert(a + b =~= a);
        assert(queued_from(filter, a, limit) + Seq::<QueueEntryView>::empty() =~= queued_from(
            filter,
            a,
            limit,
        ));
    } else {
        lemma_queued_concat(filter, a, b.drop_last(), limit);
        assert((a + b).drop_last() =~= a + b.drop_last());
        assert((a + b).last() == b.last());
        let qa = queued_from(filter, a, limit);
        let qb = queued_from(filter, b.drop_last(), limit);
        assert((qa + qb).push(queue_entry_of(b.last())) =~= qa + qb.push(
            queue_entry_of(b.last()),
        ));
    }
}

/// A page of one hit queues that hit exactly when its date is not older
/// than the limit and its metadata pass the filter, as its queue entry.
pub proof fn lemma_queued_single(filter: KeywordFilter, h: SearchHit, limit: Seq<char>)
    ensures
        queued_from(filter, seq![h], limit) == if !is_outdated(reference_date(h), limit)
            && filter.admits(metadata_text(h)) {
            seq![queue_entry_of(h)]
        } else {
            seq![]
        },
{
    assert(seq![h].drop_last() =~= Seq::<SearchHit>::empty());
    assert(queued_from(filter, Seq::<SearchHit>::empty(), limit) == Seq::<QueueEntryView>::empty());
    assert(seq![h].last() == h);
    assert(Seq::<QueueEntryView>::empty().push(queue_entry_of(h)) =~= seq![queue_entry_of(h)]);
}

/// A hit's fate depends on that hit alone: wherever it stands on a page,
/// and whatever the hits before and after it are, it adds its queue entry
/// exactly when it is not outdated and its metadata pass the filter.
pub proof fn lemma_hit_fate_is_its_own(
    filter: KeywordFilter,
    before: Seq<SearchHit>,
    h: SearchHit,
    after: Seq<SearchHit>,
    limit: Seq<char>,
)
    ensures
        queued_from(filter, before + seq![h] + after, limit) == queued_from(filter, before, limit)
            + (if !is_outdated(reference_date(h), limit) && filter.admits(metadata_text(h)) {
            seq![queue_entry_of(h)]
        } else {
            seq![]
        }) + queued_from(filter, after, limit),
{
    lemma_queued_concat(filter, before + seq![h], after, limit);
    lemma_queued_concat(filter, before, seq![h], limit);
    lemma_queued_single(filter, h, limit);
}

/// The metadata text holds the four texts of the hit, each in lower case
/// (a missing one as the empty text), in the order title, English
/// description, Portuguese description, complementary information, with a
/// single space between each two; so each present text occurs in it.
pub proof fn lemma_metadata_fields(hit: SearchHit)
    ensures
        metadata_text(hit) == unicode_lowercase(text_or(hit.title, seq![])) + seq![' ']
            + unicode_lowercase(text_or(hit.description, seq![])) + seq![' '] + unicode_lowercase(
            text_or(hit.descricao, seq![]),
        ) + seq![' '] + unicode_lowercase(text_or(hit.informacao_complementar, seq![])),
        hit.title matches Some(t) ==> contains(metadata_text(hit), unicode_lowercase(t@)),
        hit.description matches Some(d) ==> contains(metadata_text(hit), unicode_lowercase(d@)),
        hit.descricao matches Some(d) ==> contains(metadata_text(hit), unicode_lowercase(d@)),
        hit.informacao_complementar matches Some(c) ==> contains(
            metadata_text(hit),
            unicode_lowercase(c@),
        ),
{
    reveal_strlit(" ");
    assert(" "@ =~= seq![' ']);
    let a = unicode_lowercase(text_or(hit.title, seq![]));
    let b = unicode_lowercase(text_or(hit.description, seq![]));
    let c = unicode_lowercase(text_or(hit.descricao, seq![]));
    let d = unicode_lowercase(text_or(hit.informacao_complementar, seq![]));
    let sp = seq![' '];
    let m = a + sp + b + sp + c + sp + d;
    assert(metadata_text(hit) == m);
    lemma_contains_middle(seq![], a, sp + b + sp + c + sp + d);
    assert(Seq::<char>::empty() + a + (sp + b + sp + c + sp + d) =~= m);
    lemma_contains_middle(a + sp, b, sp + c + sp + d);
    assert(a + sp + b + (sp + c + sp + d) =~= m);
    lemma_contains_middle(a + sp + b + sp, c, sp + d);
    assert(a + sp + b + sp + c + (sp + d) =~= m);
    lemma_contains_middle(a + sp + b + sp + c + sp, d, seq![]);
    assert(a + sp + b + sp + c + sp + d + Seq::<char>::empty() =~= m);
}

/// The numbers of a queue entry: a year or sequence number that the hit
/// holds as a JSON number is written in decimal (and reads back as that
/// number); one held as a string is copied; otherwise the year is `2026`
/// and the sequence number `0`. Where the hit's path holds no `/compras/`,
/// the notice link is built from the entry's own CNPJ, year and sequence
/// number.
pub proof fn lemma_queue_entry_numbers(hit: SearchHit)
    ensures
        hit.ano matches JsonScalar::Unsigned(n) ==> queue_entry_of(hit).ano == decimal(n as nat)
            && decimal_value(queue_entry_of(hit).ano) == n,
        hit.ano matches JsonScalar::Text(t) ==> queue_entry_of(hit).ano == t@,
        hit.ano is Other ==> queue_entry_of(hit).ano == "2026"@,
        hit.numero_sequencial matches JsonScalar::Unsigned(n) ==> queue_entry_of(
            hit,
        ).numero_sequencial == decimal(n as nat) && decimal_value(
            queue_entry_of(hit).numero_sequencial,
        ) == n,
        hit.numero_sequencial matches JsonScalar::Text(t) ==> queue_entry_of(hit).numero_sequencial
            == t@,
        hit.numero_sequencial is Other ==> queue_entry_of(hit).numero_sequencial == "0"@,
        !contains(text_or(hit.item_url, seq![]), "/compras/"@) ==> queue_entry_of(hit).item_url
            == "https://pncp.gov.br/app/editais/"@ + queue_entry_of(hit).orgao_cnpj + "/"@
            + queue_entry_of(hit).ano + "/"@ + queue_entry_of(hit).numero_sequencial,
{
    match hit.ano {
        JsonScalar::Unsigned(n) => {
            lemma_decimal_reads_back(n as nat);
        },
        _ => {},
    }
    match hit.numero_sequencial {
        JsonScalar::Unsigned(n) => {
            lemma_decimal_reads_back(n as nat);
        },
        _ => {},
    }
}

/// The state filter of a search request: with no state, or a state that
/// reads `TODOS` in upper case, the request is the same as with no state,
/// and that request ends with the fixed parameters; any other state adds
/// `&ufs=` and the state in upper case at the end.
pub proof fn lemma_state_filter(keyword: Seq<char>, uf: Seq<char>, page: nat)
    ensures
        ends_with(search_url(keyword, seq![], page), "&tam_pagina=10&status=recebendo_proposta"@),
        uf.len() == 0 || unicode_uppercase(uf) == "TODOS"@ ==> search_url(keyword, uf, page)
            == search_url(keyword, seq![], page),
        uf.len() > 0 && unicode_uppercase(uf) != "TODOS"@ ==> search_url(keyword, uf, page)
            == search_url(keyword, seq![], page) + "&ufs="@ + unicode_uppercase(uf),
        uf.len() > 0 && unicode_uppercase(uf) != "TODOS"@ ==> ends_with(
            search_url(keyword, uf, page),
            "&ufs="@ + unicode_uppercase(uf),
        ),
{
    let q = replaced(trimmed(keyword), " "@, "%20"@);
    let base = "https://pncp.gov.br/api/search/?q="@ + q
        + "&tipos_documento=edital&ordenacao=-data&pagina="@ + decimal(page);
    let fixed = "&tam_pagina=10&status=recebendo_proposta"@;
    assert(search_url(keyword, seq![], page) == base + fixed + Seq::<char>::empty());
    assert(base + fixed + Seq::<char>::empty() =~= base + fixed);
    lemma_ends_with_appended(base, fixed);
    let tail = "&ufs="@ + unicode_uppercase(uf);
    lemma_ends_with_appended(base + fixed, tail);
    assert(base + fixed + tail =~= base + fixed + "&ufs="@ + unicode_uppercase(uf));
}

/// The search request for a page: the keyword trimmed with its spaces
/// written `%20`, notices open for proposals, ten per page, newest first,
/// and the state filter unless it is empty or reads `TODOS` in upper case.
pub open spec fn search_url(keyword: Seq<char>, uf: Seq<char>, page: nat) -> Seq<char> {
    let q = replaced(trimmed(keyword), " "@, "%20"@);
    let upper = unicode_uppercase(uf);
    let uf_param = if uf.len() > 0 && upper != "TODOS"@ {
        "&ufs="@ + upper
    } else {
        seq![]
    };
    "https://pncp.gov.br/api/search/?q="@ + q + "&tipos_documento=edital&ordenacao=-data&pagina="@
        + decimal(page) + "&tam_pagina=10&status=recebendo_proposta"@ + uf_param
}

/// The string a field holds, or `default`.
pub fn field_text(field: &Option<String>, default: &str) -> (r: String)
    ensures
        r@ == text_or(*field, default@),
{
    match field {
        Some(s) => owned(s.as_str()),
        None => owned(default),
    }
}

/// An unsigned number in decimal, else the string, else `default`.
pub fn scalar_field_text(field: &JsonScalar, default: &str) -> (r: String)
    ensures
        r@ == scalar_text(*field, default@),
{
    match field {
        JsonScalar::Unsigned(n) => decimal_text(*n),
        JsonScalar::Text(s) => owned(s.as_str()),
        JsonScalar::Other => owned(default),
    }
}

/// The URL of a search page.
pub fn search_page_url(keyword: &str, uf: &str, page: u64) -> (r: String)
    ensures
        r@ == search_url(keyword@, uf@, page as nat),
{
    proof {
        reveal_strlit(" ");
    }
    let trimmed_keyword = trim(keyword);
    let q = replace_text(trimmed_keyword.as_str(), " ", "%20");
    let upper = uppercase(uf);
    let mut r = owned("https://pncp.gov.br/api/search/?q=");
    r.append(q.as_str());
    r.append("&tipos_documento=edital&ordenacao=-data&pagina=");
    let p = decimal_text(page);
    r.append(p.as_str());
    r.append("&tam_pagina=10&status=recebendo_proposta");
    if !uf.is_empty() && !same_text(upper.as_str(), "TODOS") {
        r.append("&ufs=");
        r.append(upper.as_str());
    }
    r
}

/// The public page of a notice.
pub fn notice_page_url(path: &str, cnpj: &str, ano: &str, seq: &str) -> (r: String)
    ensures
        r@ == notice_url(path@, cnpj@, ano@, seq@),
{
    proof {
        reveal_strlit("/compras/");
    }
    if contains_text(path, "/compras/") {
        let mut r = owned("https://pncp.gov.br");
        let rewritten = replace_text(path, "/compras/", "/app/editais/");
        r.append(rewritten.as_str());
        r
    } else {
        let mut r = owned("https://pncp.gov.br/app/editais/");
        r.append(cnpj);
        r.append("/");
        r.append(ano);
        r.append("/");
        r.append(seq);
        r
    }
}

/// Whether `date` is older than `limit` (see [`is_outdated`]).
pub fn outdated(date: &str, limit: &str) -> (r: bool)
    ensures
        r == is_outdated(date@, limit@),
{
    let d = date.as_bytes();
    if d.len() < 10 {
        false
    } else {
        prefix_before(d, 10, limit.as_bytes())
    }
}

/// The outcome of screening one hit.
pub enum Screening {
    /// Its date comes before the limit.
    Outdated,
    /// Its metadata do not pass the keyword filter.
    Rejected,
    /// It goes into the queue as this entry.
    Queued(QueueEntry),
}

impl SearchHit {
    /// The first date the hit carries.
    pub fn reference_date(&self) -> (r: String)
        ensures
            r@ == reference_date(*self),
    {
        match &self.data_atualizacao_pncp {
            Some(d) => owned(d.as_str()),
            None => match &self.created_at {
                Some(d) => owned(d.as_str()),
                None => {
                    proof {
                        reveal_strlit("");
                        assert(""@ =~= Seq::<char>::empty());
            assert(""@ =~= Seq::<char>::empty());
                    }
                    field_text(&self.data_inicio_vigencia, "")
                },
            },
        }
    }

    /// Whether the first ten bytes of the hit's date can be cut off as a
    /// `&str`; the search does so, and fails on a hit where they cannot.
    pub fn date_is_cuttable(&self) -> (r: bool)
        ensures
            r == date_cuttable(reference_date(*self)),
    {
        let d = self.reference_date();
        let s = d.as_str();
        s.as_bytes().len() < 10 || s.is_char_boundary(10)
    }

    /// The text the keyword filter reads.
    pub fn metadata_text(&self) -> (r: String)
        ensures
            r@ == metadata_text(*self),
    {
        proof {
            reveal_strlit("");
            assert(""@ =~= Seq::<char>::empty());
        }
        let t = field_text(&self.title, "");
        let mut r = lowercase(t.as_str());
        r.append(" ");

        let d = field_text(&self.description, "");
        let d = lowercase(d.as_str());
        r.append(d.as_str());
        r.append(" ");
        let d = field_text(&self.descricao, "");
        let d = lowercase(d.as_str());
        r.append(d.as_str());
        r.append(" ");
        let c = field_text(&self.informacao_complementar, "");
        let c = lowercase(c.as_str());
        r.append(c.as_str());
        r
    }

    /// The queue entry made from the hit.
    pub fn queue_entry(&self) -> (r: QueueEntry)
        ensures
            r@ == queue_entry_of(*self),
    {
        proof {
            reveal_strlit("");
            assert(""@ =~= Seq::<char>::empty());
        }
        let cnpj = field_text(&self.orgao_cnpj, "");
        let ano = scalar_field_text(&self.ano, "2026");
        let seq = scalar_field_text(&self.numero_sequencial, "0");
        let path = field_text(&self.item_url, "");
        let url = notice_page_url(path.as_str(), cnpj.as_str(), ano.as_str(), seq.as_str());
        QueueEntry {
            id: field_text(&self.id, ""),
            orgao_cnpj: cnpj,
            ano,
            numero_sequencial: seq,
            orgao_nome: field_text(&self.orgao_nome, "Órgão Omitido"),
            title: field_text(&self.title, ""),
            item_url: url,
        }
    }

    /// Screens the hit against the date limit and the keyword filter.
    pub fn screen(&self, filter: &KeywordFilter, limit: &str) -> (r: Screening)
        ensures
            is_outdated(reference_date(*self), limit@) ==> r is Outdated,
            !is_outdated(reference_date(*self), limit@) && filter.admits(metadata_text(*self))
                ==> (r matches Screening::Queued(e) && e@ == queue_entry_of(*self)),
            !is_outdated(reference_date(*self), limit@) && !filter.admits(metadata_text(*self))
                ==> r is Rejected,
    {
        let date = self.reference_date();
        if outdated(date.as_str(), limit) {
            return Screening::Outdated;
        }
        let meta = self.metadata_text();
        if filter.admits_text(meta.as_str()) {
            Screening::Queued(self.queue_entry())
        } else {
            Screening::Rejected
        }
    }
}

// ---------------------------------------------------------------------------
// The paging loop
// ---------------------------------------------------------------------------

/// The last page the search asks for.
pub const LAST_PAGE: u64 = 2000;

/// What came of asking for one search page.
pub enum PageOutcome {
    /// The request or its JSON failed, or the answer has no `items` array.
    Unavailable,
    /// The `items` array of the answer.
    Hits(Vec<SearchHit>),
}

/// The state of a search: the next page to ask for, whether an empty page
/// has ended it, and how many hits were read and queued.
pub struct SearchRun {
    page: u64,
    finished: bool,
    read: u64,
    queued: u64,
}

impl SearchRun {
    /// The next page to ask for.
    pub closed spec fn next_page(&self) -> nat {
        self.page as nat
    }

    /// Whether an empty page has ended the search.
    pub closed spec fn is_finished(&self) -> bool {
        self.finished
    }

    /// How many hits were read.
    pub closed spec fn read(&self) -> nat {
        self.read as nat
    }

    /// How many hits were queued.
    pub closed spec fn queued(&self) -> nat {
        self.queued as nat
    }

    /// Pages run from 1 to one past the last, and no more hits are queued
    /// than were read.
    pub open spec fn wf(&self) -> bool {
        &&& 1 <= self.next_page() <= LAST_PAGE + 1
        &&& self.queued() <= self.read()
    }

    /// A page is still to be asked for.
    pub open spec fn pending(&self) -> bool {
        !self.is_finished() && self.next_page() <= LAST_PAGE
    }

    #[verifier::type_invariant]
    spec fn always_wf(&self) -> bool {
        self.wf()
    }

    /// A search that starts at page 1.
    pub fn new() -> (r: SearchRun)
        ensures
            r.wf(),
            r.next_page() == 1,
            !r.is_finished(),
            r.read() == 0,
            r.queued() == 0,
    {
        SearchRun { page: 1, finished: false, read: 0, queued: 0 }
    }

    /// The page to ask for next, if any.
    pub fn next_request(&self) -> (r: Option<u64>)
        ensures
            r is Some <==> self.pending(),
            r matches Some(p) ==> p == self.next_page(),
    {
        if !self.finished && self.page <= LAST_PAGE {
            Some(self.page)
        } else {
            None
        }
    }

    /// How many hits were read.
    pub fn read_count(&self) -> (r: u64)
        ensures
            r == self.read(),
    {
        self.read
    }

    /// How many hits were queued.
    pub fn queued_count(&self) -> (r: u64)
        ensures
            r == self.queued(),
    {
        self.queued
    }

    /// How many hits were read and not queued.
    pub fn ignored_count(&self) -> (r: u64)
        ensures
            r == self.read() - self.queued(),
    {
        proof {
            use_type_invariant(self);
        }
        self.read - self.queued
    }

    /// Takes in the outcome of the page just asked for and gives the queue
    /// entries it yields, in page order. An unavailable page is skipped, an
    /// empty one ends the search.
    pub fn take_page(&mut self, outcome: PageOutcome, filter: &KeywordFilter, limit: &str) -> (r:
        Vec<QueueEntry>)
        requires
            old(self).pending(),
            outcome matches PageOutcome::Hits(hits) ==> old(self).read() + hits.len() <= u64::MAX
                && forall|i: int|
                0 <= i < hits.len() ==> #[trigger] date_cuttable(reference_date(hits@[i])),
        ensures
            final(self).wf(),
            outcome is Unavailable ==> {
                &&& final(self).next_page() == old(self).next_page() + 1
                &&& !final(self).is_finished()
                &&& final(self).read() == old(self).read()
                &&& final(self).queued() == old(self).queued()
                &&& r@.len() == 0
            },
            outcome matches PageOutcome::Hits(hits) ==> (hits.len() == 0 ==> {
                &&& final(self).next_page() == old(self).next_page()
                &&& final(self).is_finished()
                &&& final(self).read() == old(self).read()
                &&& final(self).queued() == old(self).queued()
                &&& r@.len() == 0
            }),
            outcome matches PageOutcome::Hits(hits) ==> (hits.len() > 0 ==> {
                &&& final(self).next_page() == old(self).next_page() + 1
                &&& !final(self).is_finished()
                &&& final(self).read() == old(self).read() + hits.len()
                &&& final(self).queued() == old(self).queued() + r@.len()
                &&& entry_views(r@) == queued_from(*filter, hits@, limit@)
            }),
    {
        proof {
            use_type_invariant(&*self);
        }
        let mut out: Vec<QueueEntry> = Vec::new();
        match outcome {
            PageOutcome::Unavailable => {
                self.page = self.page + 1;
            },
            PageOutcome::Hits(hits) => {
                if hits.len() == 0 {
                    self.finished = true;
                } else {
                    let ghost read0 = self.read;
                    let ghost page0 = self.page;
                    let ghost queued0 = self.queued;
                    let mut i: usize = 0;
                    while i < hits.len()
                        invariant
                            i <= hits.len(),
                            read0 + hits.len() <= u64::MAX,
                            self.read == read0 + i,
                            self.queued == queued0 + out@.len(),
                            queued0 <= read0,
                            self.page == page0,
                            1 <= page0 <= LAST_PAGE,
                            !self.finished,
                            out@.len() <= i,
                            entry_views(out@) == queued_from(*filter, hits@.take(i as int), limit@),
                        decreases hits.len() - i,
                    {
                        assert(hits@.take(i + 1).drop_last() =~= hits@.take(i as int));
                        self.read = self.read + 1;
                        match hits[i].screen(filter, limit) {
                            Screening::Queued(e) => {
                                out.push(e);
                                self.queued = self.queued + 1;
                                assert(entry_views(out@) =~= entry_views(out@).drop_last().push(
                                    out@.last()@,
                                ));
                            },
                            _ => {},
                        }
                        i = i + 1;
                    }
                    assert(hits@.take(hits.len() as int) =~= hits@);
                    self.page = self.page + 1;
                }
            },
        }
        proof {
            use_type_invariant(&*self);
        }
        out
    }
}

} // verus!
