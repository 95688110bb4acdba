//! The second stage, first half: fetching the documents attached to a
//! queued notice and turning each download into the parts whose text the
//! filter reads (PDF files, and the text of Word documents).
use vstd::prelude::*;
use vstd::utf8::*;

use crate::pattern::{CompiledRegex, regex_accepts, regex_substitute};
use crate::text::{
    ends_with, ends_with_text, lowercase, same_text, unicode_lowercase, utf8_to_string,
};

verus! {

/// `std::io::Cursor`, the in-memory reader a ZIP archive is read from.
#[verifier::external_type_specification]
#[verifier::external_body]
#[verifier::reject_recursive_types(T)]
pub struct ExCursor<T>(std::io::Cursor<T>);

/// `zip::ZipArchive`, an opened ZIP archive.
#[verifier::external_type_specification]
#[verifier::external_body]
#[verifier::reject_recursive_types(R)]
pub struct ExZipArchive<R>(zip::ZipArchive<R>);

/// What reading the entries of the archive held in `bytes` gives, as the
/// `zip` crate reads it: `None` where `zip::ZipArchive::new` refuses the
/// bytes; else, for each entry index in order, `None` where
/// `ZipArchive::by_index` refuses the entry, else its name and, unless
/// reading its data fails, its data.
pub uninterp spec fn zip_listing(bytes: Seq<u8>) -> Option<
    Seq<Option<(Seq<char>, Option<Seq<u8>>)>>,
>;

/// What the entries of an opened archive are, in the form of
/// [`zip_listing`].
pub uninterp spec fn archive_entries(archive: zip::ZipArchive<std::io::Cursor<Vec<u8>>>) -> Seq<
    Option<(Seq<char>, Option<Seq<u8>>)>,
>;

/// `zip::ZipArchive::new` over the bytes: the archive, whose entries are
/// the listing of the bytes, or `None` where the crate refuses them.
#[verifier::external_body]
fn open_archive(bytes: Vec<u8>) -> (r: Option<zip::ZipArchive<std::io::Cursor<Vec<u8>>>>)
    ensures
        r is Some <==> zip_listing(bytes@) is Some,
        r matches Some(a) ==> zip_listing(bytes@) == Some(archive_entries(a)),
{
    match zip::ZipArchive::new(std::io::Cursor::new(bytes)) {
        Ok(a) => Some(a),
        Err(_) => None,
    }
}

/// `zip::ZipArchive::len`: the number of entries.
#[verifier::external_body]
fn archive_len(a: &zip::ZipArchive<std::io::Cursor<Vec<u8>>>) -> (n: usize)
    ensures
        n == archive_entries(*a).len(),
{
    a.len()
}

/// An entry read from an archive: its name, and its data unless reading
/// them failed.
pub struct ArchiveEntry {
    pub name: String,
    pub data: Option<Vec<u8>>,
}

/// An entry as plain values.
pub open spec fn entry_view(e: ArchiveEntry) -> (Seq<char>, Option<Seq<u8>>) {
    (
        e.name@,
        match e.data {
            Some(d) => Some(d@),
            None => None,
        },
    )
}

/// `zip::ZipArchive::by_index`, then the entry's name (`ZipFile::name`) and
/// data (`std::io::copy` from the entry). `None` where the crate refuses
/// the index; the archive's entries stay as they were.
#[verifier::external_body]
fn read_entry(a: &mut zip::ZipArchive<std::io::Cursor<Vec<u8>>>, i: usize) -> (r: Option<
    ArchiveEntry,
>)
    ensures
        archive_entries(*final(a)) == archive_entries(*old(a)),
        i >= archive_entries(*old(a)).len() ==> r is None,
        i < archive_entries(*old(a)).len() ==> (r is Some <==> archive_entries(*old(a))[i as int] is Some),
        r matches Some(e) ==> archive_entries(*old(a))[i as int] == Some(entry_view(e)),
{
    match a.by_index(i) {
        Ok(mut f) => {
            let name = f.name().to_string();
            let mut data: Vec<u8> = Vec::new();
            match std::io::copy(&mut f, &mut data) {
                Ok(_) => Some(ArchiveEntry { name, data: Some(data) }),
                Err(_) => Some(ArchiveEntry { name, data: None }),
            }
        },
        Err(_) => None,
    }
}

/// The entries that could be read, in archive order.
pub open spec fn readable_entries(es: Seq<Option<(Seq<char>, Option<Seq<u8>>)>>) -> Seq<
    (Seq<char>, Option<Seq<u8>>),
>
    decreases es.len(),
{
    if es.len() == 0 {
        seq![]
    } else {
        let before = readable_entries(es.drop_last());
        match es.last() {
            Some(e) => before.push(e),
            None => before,
        }
    }
}

/// The views of a sequence of entries.
pub open spec fn archive_entry_views(v: Seq<ArchiveEntry>) -> Seq<(Seq<char>, Option<Seq<u8>>)> {
    v.map_values(|e: ArchiveEntry| entry_view(e))
}

/// The readable entries of the ZIP archive held in `bytes`; `None` where it
/// cannot be opened.
pub fn read_archive(bytes: Vec<u8>) -> (r: Option<Vec<ArchiveEntry>>)
    ensures
        r is Some <==> zip_listing(bytes@) is Some,
        r matches Some(es) ==> archive_entry_views(es@) == readable_entries(zip_listing(bytes@)->0),
{
    let ghost listing = zip_listing(bytes@);
    match open_archive(bytes) {
        None => None,
        Some(mut a) => {
            let n = archive_len(&a);
            let ghost all = archive_entries(a);
            let mut out: Vec<ArchiveEntry> = Vec::new();
            let mut i: usize = 0;
            while i < n
                invariant
                    listing == Some(all),
                    archive_entries(a) == all,
                    n == all.len(),
                    i <= n,
                    archive_entry_views(out@) == readable_entries(all.take(i as int)),
                decreases n - i,
            {
                assert(all.take(i + 1).drop_last() =~= all.take(i as int));
                match read_entry(&mut a, i) {
                    Some(e) => {
                        out.push(e);
                        assert(archive_entry_views(out@) =~= archive_entry_views(out@).drop_last().push(
                            entry_view(out@.last()),
                        ));
                    },
                    None => {},
                }
                i = i + 1;
            }
            assert(all.take(n as int) =~= all);
            Some(out)
        },
    }
}

// ---------------------------------------------------------------------------
// Parts of a download
// ---------------------------------------------------------------------------

/// A part of a download whose text goes into the attachment text.
pub enum Part {
    /// A PDF file; its text is still to be extracted.
    Pdf(Vec<u8>),
    /// Text already extracted.
    Text(String),
}

/// A [`Part`] as plain values.
pub enum PartView {
    Pdf(Seq<u8>),
    Text(Seq<char>),
}

impl View for Part {
    type V = PartView;

    open spec fn view(&self) -> PartView {
        match self {
            Part::Pdf(b) => PartView::Pdf(b@),
            Part::Text(t) => PartView::Text(t@),
        }
    }
}

/// The views of a sequence of parts.
pub open spec fn part_views(v: Seq<Part>) -> Seq<PartView> {
    v.map_values(|p: Part| p@)
}

/// The regex whose matches (markup tags) are replaced by a space in a Word
/// document's XML.
pub open spec fn tag_pattern() -> Seq<char> {
    "<[^>]*>"@
}

/// The four bytes that open a ZIP file (and so a `.docx`): `PK\x03\x04`.
pub open spec fn is_zip(bytes: Seq<u8>) -> bool {
    bytes.len() >= 4 && bytes[0] == 0x50 && bytes[1] == 0x4b && bytes[2] == 0x03 && bytes[3]
        == 0x04
}

/// The parts an archive entry gives: a PDF (by its lower-case name ending
/// in `.pdf`) whose data could be read, or the text of `word/document.xml`
/// (name in lower case) with every tag replaced by a space, where its data
/// could be read and are UTF-8. Any other entry gives nothing.
pub open spec fn entry_parts(entry: (Seq<char>, Option<Seq<u8>>)) -> Seq<PartView> {
    let name = unicode_lowercase(entry.0);
    if ends_with(name, ".pdf"@) {
        match entry.1 {
            Some(d) => seq![PartView::Pdf(d)],
            None => seq![],
        }
    } else if name == "word/document.xml"@ {
        match entry.1 {
            Some(d) => if valid_utf8(d) {
                seq![PartView::Text(regex_substitute(tag_pattern(), decode_utf8(d), " "@))]
            } else {
                seq![]
            },
            None => seq![],
        }
    } else {
        seq![]
    }
}

/// The parts of a sequence of entries, entry after entry.
pub open spec fn entries_parts(es: Seq<(Seq<char>, Option<Seq<u8>>)>) -> Seq<PartView>
    decreases es.len(),
{
    if es.len() == 0 {
        seq![]
    } else {
        entries_parts(es.drop_last()) + entry_parts(es.last())
    }
}

/// The parts of a download: for a ZIP file, those of its readable entries
/// (none where it cannot be opened); else the whole download as a PDF.
pub open spec fn download_parts(bytes: Seq<u8>) -> Seq<PartView> {
    if is_zip(bytes) {
        match zip_listing(bytes) {
            Some(es) => entries_parts(readable_entries(es)),
            None => seq![],
        }
    } else {
        seq![PartView::Pdf(bytes)]
    }
}

/// Reads downloads; holds the compiled tag regex.
pub struct AttachmentReader {
    tags: CompiledRegex,
}

impl AttachmentReader {
    #[verifier::type_invariant]
    spec fn holds_tag_regex(&self) -> bool {
        self.tags@ == tag_pattern()
    }

    /// A reader; `None` where the `regex` crate refuses the tag pattern.
    pub fn new() -> (r: Option<AttachmentReader>)
        ensures
            r is Some <==> regex_accepts(tag_pattern()),
    {
        match CompiledRegex::new("<[^>]*>") {
            Some(tags) => Some(AttachmentReader { tags }),
            None => None,
        }
    }

    /// The parts one entry gives.
    pub fn parts_of_entry(&self, entry: ArchiveEntry) -> (r: Vec<Part>)
        ensures
            part_views(r@) == entry_parts(entry_view(entry)),
    {
        proof {
            use_type_invariant(self);
        }
        let ghost ev = entry_view(entry);
        let mut r: Vec<Part> = Vec::new();
        let name = lowercase(entry.name.as_str());
        if ends_with_text(name.as_str(), ".pdf") {
            match entry.data {
                Some(d) => {
                    r.push(Part::Pdf(d));
                },
                None => {},
            }
        } else if same_text(name.as_str(), "word/document.xml") {
            match entry.data {
                Some(d) => {
                    match utf8_to_string(d) {
                        Some(xml) => {
                            let text = self.tags.replace_all(xml.as_str(), " ");
                            r.push(Part::Text(text));
                        },
                        None => {},
                    }
                },
                None => {},
            }
        }
        assert(part_views(r@) =~= entry_parts(ev));
        r
    }

    /// The parts of a sequence of entries, entry after entry.
    pub fn parts_of_entries(&self, entries: Vec<ArchiveEntry>) -> (r: Vec<Part>)
        ensures
            part_views(r@) == entries_parts(archive_entry_views(entries@)),
    {
        let ghost all = entries@;
        let mut out: Vec<Part> = Vec::new();
        for e in it: entries
            invariant
                it.seq() == all,
                part_views(out@) == entries_parts(archive_entry_views(all.take(it.index() as int))),
        {
            let ghost i = it.index();
            let mut ps = self.parts_of_entry(e);
            let ghost before = out@;
            let ghost added = ps@;
            out.append(&mut ps);
            assert(archive_entry_views(all.take(i + 1)).drop_last() =~= archive_entry_views(all.take(i as int)));
            assert(part_views(out@) =~= part_views(before) + part_views(added));
        }
        assert(all.take(all.len() as int) =~= all);
        out
    }

    /// The parts of a download.
    pub fn parts_of_download(&self, bytes: Vec<u8>) -> (r: Vec<Part>)
        ensures
            part_views(r@) == download_parts(bytes@),
    {
        let zip = bytes.len() >= 4 && bytes[0] == 0x50 && bytes[1] == 0x4b && bytes[2] == 0x03
            && bytes[3] == 0x04;
        if zip {
            match read_archive(bytes) {
                Some(entries) => self.parts_of_entries(entries),
                None => Vec::new(),
            }
        } else {
            let ghost b = bytes@;
            let mut r: Vec<Part> = Vec::new();
            r.push(Part::Pdf(bytes));
            assert(part_views(r@) =~= seq![PartView::Pdf(b)]);
            r
        }
    }
}

} // verus!
