//! The second stage, second half: for each queued notice, which documents
//! to fetch, the text they yield, and whether the notice is approved,
//! barred, or kept for a manual look.
use vstd::prelude::*;

use crate::attachments::{AttachmentReader, Part, download_parts, part_views};
use crate::pattern::KeywordFilter;
use crate::search::text_or;
use crate::text::{decimal, decimal_text, owned, push_char, views};

verus! {

/// The last attachment number asked for.
pub const LAST_DOCUMENT: u64 = 10;

/// The API address of attachment `n` of a purchase.
pub open spec fn document_url(cnpj: Seq<char>, ano: Seq<char>, seq: Seq<char>, n: nat) -> Seq<
    char,
> {
    "https://pncp.gov.br/pncp-api/v1/orgaos/"@ + cnpj + "/compras/"@ + ano + "/"@ + seq
        + "/arquivos/"@ + decimal(n)
}

/// A line of the work queue as the second stage reads it. A field is
/// `Some` exactly when the line holds a JSON string under that key.
pub struct QueueRecord {
    pub orgao_cnpj: Option<String>,
    pub ano: Option<String>,
    pub numero_sequencial: Option<String>,
    pub orgao_nome: Option<String>,
    pub title: Option<String>,
}

fn text_or_exec(field: &Option<String>, default: &str) -> (r: String)
    ensures
        r@ == text_or(*field, default@),
{
    match field {
        Some(s) => owned(s.as_str()),
        None => owned(default),
    }
}

impl QueueRecord {
    /// The CNPJ of the purchasing body, or the empty text.
    pub fn cnpj(&self) -> (r: String)
        ensures
            r@ == text_or(self.orgao_cnpj, seq![]),
    {
        proof {
            reveal_strlit("");
            assert(""@ =~= Seq::<char>::empty());
        }
        text_or_exec(&self.orgao_cnpj, "")
    }

    /// The year of the purchase, or the empty text.
    pub fn ano(&self) -> (r: String)
        ensures
            r@ == text_or(self.ano, seq![]),
    {
        proof {
            reveal_strlit("");
            assert(""@ =~= Seq::<char>::empty());
        }
        text_or_exec(&self.ano, "")
    }

    /// The sequence number of the purchase, or the empty text.
    pub fn numero_sequencial(&self) -> (r: String)
        ensures
            r@ == text_or(self.numero_sequencial, seq![]),
    {
        proof {
            reveal_strlit("");
            assert(""@ =~= Seq::<char>::empty());
        }
        text_or_exec(&self.numero_sequencial, "")
    }

    /// The name of the purchasing body, or `N/A`.
    pub fn orgao_nome(&self) -> (r: String)
        ensures
            r@ == text_or(self.orgao_nome, "N/A"@),
    {
        text_or_exec(&self.orgao_nome, "N/A")
    }

    /// The title, or the empty text.
    pub fn title(&self) -> (r: String)
        ensures
            r@ == text_or(self.title, seq![]),
    {
        proof {
            reveal_strlit("");
            assert(""@ =~= Seq::<char>::empty());
        }
        text_or_exec(&self.title, "")
    }

    /// The address of attachment `n` of this purchase.
    pub fn document_url(&self, n: u64) -> (r: String)
        ensures
            r@ == document_url(
                text_or(self.orgao_cnpj, seq![]),
                text_or(self.ano, seq![]),
                text_or(self.numero_sequencial, seq![]),
                n as nat,
            ),
    {
        let mut r = owned("https://pncp.gov.br/pncp-api/v1/orgaos/");
        let cnpj = self.cnpj();
        r.append(cnpj.as_str());
        r.append("/compras/");
        let ano = self.ano();
        r.append(ano.as_str());
        r.append("/");
        let seq = self.numero_sequencial();
        r.append(seq.as_str());
        r.append("/arquivos/");
        let k = decimal_text(n);
        r.append(k.as_str());
        r
    }
}

// ---------------------------------------------------------------------------
// Which documents to fetch
// ---------------------------------------------------------------------------

/// What came of asking for one attachment.
pub enum FetchOutcome {
    /// The request could not be sent or answered.
    RequestFailed,
    /// The server answered with a status other than success.
    NotSuccess,
    /// The answer's body could not be read.
    BodyUnreadable,
    /// The answer's body.
    Body(Vec<u8>),
}

/// The attachments of one notice: the next number to ask for, and whether a
/// refusal has ended the asking.
pub struct DocumentFetch {
    next: u64,
    stopped: bool,
}

impl DocumentFetch {
    /// The next attachment number.
    pub closed spec fn next_document(&self) -> nat {
        self.next as nat
    }

    /// Whether a refusal has ended the asking.
    pub closed spec fn is_stopped(&self) -> bool {
        self.stopped
    }

    /// Numbers run from 1 to one past the last.
    pub open spec fn wf(&self) -> bool {
        1 <= self.next_document() <= LAST_DOCUMENT + 1
    }

    /// An attachment is still to be asked for.
    pub open spec fn pending(&self) -> bool {
        !self.is_stopped() && self.next_document() <= LAST_DOCUMENT
    }

    #[verifier::type_invariant]
    spec fn always_wf(&self) -> bool {
        self.wf()
    }

    /// Asking starts at attachment 1.
    pub fn new() -> (r: DocumentFetch)
        ensures
            r.wf(),
            r.next_document() == 1,
            !r.is_stopped(),
    {
        DocumentFetch { next: 1, stopped: false }
    }

    /// The attachment to ask for next, if any.
    pub fn next_request(&self) -> (r: Option<u64>)
        ensures
            r is Some <==> self.pending(),
            r matches Some(n) ==> n == self.next_document(),
    {
        if !self.stopped && self.next <= LAST_DOCUMENT {
            Some(self.next)
        } else {
            None
        }
    }

    /// Takes in what came of asking for the current attachment and gives
    /// the parts of its body. An answer that is not a success ends the
    /// asking; any other outcome moves on to the next number.
    pub fn take_outcome(&mut self, outcome: FetchOutcome, reader: &AttachmentReader) -> (r: Vec<
        Part,
    >)
        requires
            old(self).pending(),
        ensures
            final(self).wf(),
            outcome is NotSuccess ==> final(self).is_stopped() && final(self).next_document()
                == old(self).next_document() && r@.len() == 0,
            !(outcome is NotSuccess) ==> !final(self).is_stopped() && final(self).next_document()
                == old(self).next_document() + 1,
            outcome matches FetchOutcome::Body(b) ==> part_views(r@) == download_parts(b@),
            outcome is RequestFailed || outcome is BodyUnreadable ==> r@.len() == 0,
    {
        proof {
            use_type_invariant(&*self);
        }
        let r = match outcome {
            FetchOutcome::NotSuccess => {
                self.stopped = true;
                Vec::new()
            },
            FetchOutcome::Body(b) => {
                self.next = self.next + 1;
                reader.parts_of_download(b)
            },
            _ => {
                self.next = self.next + 1;
                Vec::new()
            },
        };
        proof {
            use_type_invariant(&*self);
        }
        r
    }
}

// ---------------------------------------------------------------------------
// The attachment text and the verdict
// ---------------------------------------------------------------------------

/// The texts one after the other, each followed by a space.
pub open spec fn spaced(texts: Seq<Seq<char>>) -> Seq<char>
    decreases texts.len(),
{
    if texts.len() == 0 {
        seq![]
    } else {
        spaced(texts.drop_last()) + texts.last() + seq![' ']
    }
}

/// The attachment text of a notice from the texts of its parts, in order.
pub fn attachment_text(texts: &Vec<String>) -> (r: String)
    ensures
        r@ == spaced(views(texts@)),
{
    let ghost ts = views(texts@);
    let mut r = String::new();
    let mut i: usize = 0;
    while i < texts.len()
        invariant
            ts == views(texts@),
            i <= texts.len(),
            r@ == spaced(ts.take(i as int)),
        decreases texts.len() - i,
    {
        r.append(texts[i].as_str());
        push_char(&mut r, ' ');
        assert(ts.take(i + 1).drop_last() =~= ts.take(i as int));
        i = i + 1;
    }
    assert(ts.take(texts.len() as int) =~= ts);
    r
}

/// What becomes of a queued notice.
pub enum Triage {
    /// Its attachments pass the filter: kept, without the manual flag.
    Approved,
    /// Its attachments do not pass the filter: dropped.
    Barred,
    /// No text could be taken from its attachments: kept with the manual
    /// flag, under this title.
    ManualReview(String),
}

/// The title a notice kept for a manual look is given.
pub open spec fn manual_review_title(title: Seq<char>) -> Seq<char> {
    "⚠️ [REVER NO OLHO] "@ + title
}

/// The verdict on a notice from its attachment text: with no text, a
/// manual look; else approved exactly when the text passes the filter.
pub fn triage(filter: &KeywordFilter, attachment_text: &str, title: &str) -> (r: Triage)
    ensures
        attachment_text@.len() == 0 ==> (r matches Triage::ManualReview(t) && t@
            == manual_review_title(title@)),
        attachment_text@.len() > 0 && filter.admits(attachment_text@) ==> r is Approved,
        attachment_text@.len() > 0 && !filter.admits(attachment_text@) ==> r is Barred,
{
    if attachment_text.is_empty() {
        let mut t = owned("⚠️ [REVER NO OLHO] ");
        t.append(title);
        Triage::ManualReview(t)
    } else if filter.admits_text(attachment_text) {
        Triage::Approved
    } else {
        Triage::Barred
    }
}

/// The verdicts counted: notices kept (approved or for a manual look) and
/// notices barred.
pub struct Tally {
    pub kept: u64,
    pub barred: u64,
}

impl Tally {
    /// Nothing counted yet.
    pub fn new() -> (r: Tally)
        ensures
            r.kept == 0 && r.barred == 0,
    {
        Tally { kept: 0, barred: 0 }
    }

    /// Counts one verdict.
    pub fn record(&mut self, t: &Triage)
        requires
            old(self).kept + old(self).barred < u64::MAX,
        ensures
            final(self).kept + final(self).barred == old(self).kept + old(self).barred + 1,
            t is Barred ==> final(self).barred == old(self).barred + 1 && final(self).kept
                == old(self).kept,
            !(t is Barred) ==> final(self).kept == old(self).kept + 1 && final(self).barred
                == old(self).barred,
    {
        match t {
            Triage::Barred => {
                self.barred = self.barred + 1;
            },
            _ => {
                self.kept = self.kept + 1;
            },
        }
    }
}

} // verus!
