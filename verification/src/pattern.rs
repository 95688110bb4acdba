//! Keyword filters: regular expressions built from the wanted and unwanted
//! terms that the user types, matched with the `regex` crate.
use vstd::prelude::*;

use crate::text::{
    contains, joined, join_texts, lemma_contains_extend, lemma_joined_contains, owned, views,
};

verus! {

/// `regex::Regex`, a compiled regular expression.
#[verifier::external_type_specification]
#[verifier::external_body]
pub struct ExRegex(regex::Regex);

/// Whether `regex::Regex::new` accepts the pattern (default options).
pub uninterp spec fn regex_accepts(pattern: Seq<char>) -> bool;

/// What `regex::Regex::is_match` answers for the regex compiled from
/// `pattern` on `haystack`.
pub uninterp spec fn regex_finds(pattern: Seq<char>, haystack: Seq<char>) -> bool;

/// What `regex::Regex::replace_all` gives for the regex compiled from
/// `pattern`, on `haystack`, with the replacement text `replacement`.
pub uninterp spec fn regex_substitute(
    pattern: Seq<char>,
    haystack: Seq<char>,
    replacement: Seq<char>,
) -> Seq<char>;

/// A regular expression together with the pattern it was compiled from.
pub struct CompiledRegex {
    source: String,
    re: regex::Regex,
}

impl View for CompiledRegex {
    type V = Seq<char>;

    /// The pattern the regex was compiled from.
    closed spec fn view(&self) -> Seq<char> {
        self.source@
    }
}

impl CompiledRegex {
    /// `regex::Regex::new`: compiles `pattern`; `None` where the crate
    /// refuses it. Whether it does is named, not restated (the regex syntax
    /// is the crate's own).
    #[verifier::external_body]
    pub(crate) fn new(pattern: &str) -> (r: Option<CompiledRegex>)
        ensures
            r is Some <==> regex_accepts(pattern@),
            r matches Some(c) ==> c@ == pattern@,
    {
        match regex::Regex::new(pattern) {
            Ok(re) => Some(CompiledRegex { source: pattern.to_string(), re }),
            Err(_) => None,
        }
    }

    /// `regex::Regex::is_match`: whether the regex matches somewhere in
    /// `text`.
    #[verifier::external_body]
    pub(crate) fn is_match(&self, text: &str) -> (r: bool)
        ensures
            r == regex_finds(self@, text@),
    {
        self.re.is_match(text)
    }

    /// `regex::Regex::replace_all`: `text` with every match of the regex
    /// replaced by `replacement`.
    #[verifier::external_body]
    pub(crate) fn replace_all(&self, text: &str, replacement: &str) -> (r: String)
        ensures
            r@ == regex_substitute(self@, text@, replacement@),
    {
        self.re.replace_all(text, replacement).into_owned()
    }
}

// ---------------------------------------------------------------------------
// The patterns built from the user's terms
// ---------------------------------------------------------------------------

/// The pattern that matches every text.
pub open spec fn match_all_pattern() -> Seq<char> {
    "(?i).*"@
}

/// The word that stands for "rule nothing out" when no unwanted term is given.
pub open spec fn no_exclusion_pattern() -> Seq<char> {
    "PALAVRA_IMPOSSIVEL_DE_EXISTIR_999"@
}

/// Any of the terms, case-insensitive: `(?i)(t1|t2|...)`.
pub open spec fn any_term_pattern(terms: Seq<Seq<char>>) -> Seq<char> {
    "(?i)("@ + joined(terms, "|"@) + ")"@
}

/// Any of the terms as whole words, case-insensitive: `(?i)\b(t1|t2|...)\b`.
pub open spec fn any_word_pattern(terms: Seq<Seq<char>>) -> Seq<char> {
    "(?i)\\b("@ + joined(terms, "|"@) + ")\\b"@
}

/// The wanted-terms pattern for search results: whole words, or everything.
pub open spec fn search_wanted_pattern(terms: Seq<Seq<char>>) -> Seq<char> {
    if terms.len() == 0 {
        match_all_pattern()
    } else {
        any_word_pattern(terms)
    }
}

/// The wanted-terms pattern for attachment texts: any term, or everything.
pub open spec fn attachment_wanted_pattern(terms: Seq<Seq<char>>) -> Seq<char> {
    if terms.len() == 0 {
        match_all_pattern()
    } else {
        any_term_pattern(terms)
    }
}

/// The unwanted-terms pattern (search results and attachments alike).
pub open spec fn unwanted_pattern(terms: Seq<Seq<char>>) -> Seq<char> {
    if terms.len() == 0 {
        no_exclusion_pattern()
    } else {
        any_term_pattern(terms)
    }
}

/// `prefix`, the terms joined with `|`, then `suffix`.
fn wrap_terms(prefix: &str, terms: &Vec<String>, suffix: &str) -> (r: String)
    ensures
        r@ == prefix@ + joined(views(terms@), "|"@) + suffix@,
{
    let mut r = owned(prefix);
    let body = join_texts(terms, "|");
    r.append(body.as_str());
    r.append(suffix);
    r
}

/// The wanted-terms pattern for search results built from `terms`.
pub fn search_wanted(terms: &Vec<String>) -> (r: String)
    ensures
        r@ == search_wanted_pattern(views(terms@)),
{
    if terms.len() == 0 {
        owned("(?i).*")
    } else {
        wrap_terms("(?i)\\b(", terms, ")\\b")
    }
}

/// The wanted-terms pattern for attachment texts built from `terms`.
pub fn attachment_wanted(terms: &Vec<String>) -> (r: String)
    ensures
        r@ == attachment_wanted_pattern(views(terms@)),
{
    if terms.len() == 0 {
        owned("(?i).*")
    } else {
        wrap_terms("(?i)(", terms, ")")
    }
}

/// The unwanted-terms pattern built from `terms`.
pub fn unwanted(terms: &Vec<String>) -> (r: String)
    ensures
        r@ == unwanted_pattern(views(terms@)),
{
    if terms.len() == 0 {
        owned("PALAVRA_IMPOSSIVEL_DE_EXISTIR_999")
    } else {
        wrap_terms("(?i)(", terms, ")")
    }
}

/// Every term the user gives occurs in each pattern built from the terms:
/// no term is lost, whether the pattern screens search results (wanted or
/// unwanted) or attachment texts.
pub proof fn lemma_every_term_in_patterns(terms: Seq<Seq<char>>, i: int)
    requires
        0 <= i < terms.len(),
    ensures
        contains(search_wanted_pattern(terms), terms[i]),
        contains(attachment_wanted_pattern(terms), terms[i]),
        contains(unwanted_pattern(terms), terms[i]),
{
    let j = joined(terms, "|"@);
    lemma_joined_contains(terms, "|"@, i);
    lemma_contains_extend("(?i)("@, j, ")"@, terms[i]);
    lemma_contains_extend("(?i)\\b("@, j, ")\\b"@, terms[i]);
}

// ---------------------------------------------------------------------------
// Wanted/unwanted filters
// ---------------------------------------------------------------------------

/// A text passes when the wanted-terms regex matches it and the unwanted-terms regex
/// does not.
pub struct KeywordFilter {
    wanted: CompiledRegex,
    unwanted: CompiledRegex,
}

impl KeywordFilter {
    /// The pattern of the wanted-terms regex.
    pub closed spec fn wanted_source(&self) -> Seq<char> {
        self.wanted@
    }

    /// The pattern of the unwanted-terms regex.
    pub closed spec fn unwanted_source(&self) -> Seq<char> {
        self.unwanted@
    }

    /// Whether `text` passes the filter.
    pub open spec fn admits(&self, text: Seq<char>) -> bool {
        regex_finds(self.wanted_source(), text) && !regex_finds(self.unwanted_source(), text)
    }

    /// The filter from the two patterns; `None` where either does not
    /// compile.
    pub fn new(wanted: &str, unwanted: &str) -> (r: Option<KeywordFilter>)
        ensures
            r is Some <==> regex_accepts(wanted@) && regex_accepts(unwanted@),
            r matches Some(f) ==> f.wanted_source() == wanted@ && f.unwanted_source()
                == unwanted@,
    {
        let inc = CompiledRegex::new(wanted);
        match inc {
            None => None,
            Some(inc) => {
                let exc = CompiledRegex::new(unwanted);
                match exc {
                    None => None,
                    Some(exc) => Some(KeywordFilter { wanted: inc, unwanted: exc }),
                }
            },
        }
    }

    /// The filter that screens search results: whole words of `wanted`,
    /// none of `unwanted_terms`.
    pub fn for_search(wanted: &Vec<String>, unwanted_terms: &Vec<String>) -> (r: Option<KeywordFilter>)
        ensures
            r is Some <==> regex_accepts(search_wanted_pattern(views(wanted@)))
                && regex_accepts(unwanted_pattern(views(unwanted_terms@))),
            r matches Some(f) ==> f.wanted_source() == search_wanted_pattern(views(wanted@))
                && f.unwanted_source() == unwanted_pattern(views(unwanted_terms@)),
    {
        let inc = search_wanted(wanted);
        let exc = unwanted(unwanted_terms);
        KeywordFilter::new(inc.as_str(), exc.as_str())
    }

    /// The filter that screens attachment texts: any of `wanted`, none of
    /// `unwanted_terms`.
    pub fn for_attachments(wanted: &Vec<String>, unwanted_terms: &Vec<String>) -> (r: Option<
        KeywordFilter,
    >)
        ensures
            r is Some <==> regex_accepts(attachment_wanted_pattern(views(wanted@)))
                && regex_accepts(unwanted_pattern(views(unwanted_terms@))),
            r matches Some(f) ==> f.wanted_source() == attachment_wanted_pattern(
                views(wanted@),
            ) && f.unwanted_source() == unwanted_pattern(views(unwanted_terms@)),
    {
        let inc = attachment_wanted(wanted);
        let exc = unwanted(unwanted_terms);
        KeywordFilter::new(inc.as_str(), exc.as_str())
    }

    /// Whether `text` passes the filter.
    pub fn admits_text(&self, text: &str) -> (r: bool)
        ensures
            r == self.admits(text@),
    {
        self.wanted.is_match(text) && !self.unwanted.is_match(text)
    }
}

} // verus!
