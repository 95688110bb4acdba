//! The list of approved notices handed to the front end: the file of
//! approved notices (one JSON object per line) read as a JSON array.
use vstd::prelude::*;

use crate::text::{
    blank, is_blank, join_texts, joined, lines_of, push_char, split_lines, trim, trimmed, views,
};

verus! {

/// What line `i` adds to the saved history: nothing if it is blank, else
/// the line as it stands, followed by a comma whenever any line (blank or
/// not) comes after it.
pub open spec fn history_piece(ls: Seq<Seq<char>>, i: int) -> Seq<char> {
    if blank(ls[i]) {
        seq![]
    } else if i + 1 < ls.len() {
        ls[i] + seq![',']
    } else {
        ls[i]
    }
}

/// What the first `n` lines add to the saved history.
pub open spec fn history_items(ls: Seq<Seq<char>>, n: nat) -> Seq<char>
    decreases n,
{
    if n == 0 {
        seq![]
    } else {
        history_items(ls, (n - 1) as nat) + history_piece(ls, n - 1)
    }
}

/// The saved history as the front end loads it at start: `[`, the pieces
/// of the lines, `]`.
pub open spec fn saved_history(content: Seq<char>) -> Seq<char> {
    let ls = lines_of(content);
    seq!['['] + history_items(ls, ls.len()) + seq![']']
}

/// The non-blank lines, each trimmed, in order.
pub open spec fn kept_lines(ls: Seq<Seq<char>>) -> Seq<Seq<char>>
    decreases ls.len(),
{
    if ls.len() == 0 {
        seq![]
    } else {
        let before = kept_lines(ls.drop_last());
        if blank(ls.last()) {
            before
        } else {
            before.push(trimmed(ls.last()))
        }
    }
}

/// The list the search hands back when it ends: `[`, the non-blank lines
/// trimmed and joined with commas, `]`.
pub open spec fn approved_listing(content: Seq<char>) -> Seq<char> {
    seq!['['] + joined(kept_lines(lines_of(content)), seq![',']) + seq![']']
}

/// The saved history from the content of the file of approved notices.
pub fn saved_history_json(content: &str) -> (r: String)
    ensures
        r@ == saved_history(content@),
{
    let lines = split_lines(content);
    let ghost ls = views(lines@);
    let mut r = String::new();
    push_char(&mut r, '[');
    let mut i: usize = 0;
    while i < lines.len()
        invariant
            ls == views(lines@),
            ls == lines_of(content@),
            i <= lines.len(),
            r@ == seq!['['] + history_items(ls, i as nat),
        decreases lines.len() - i,
    {
        if !is_blank(lines[i].as_str()) {
            r.append(lines[i].as_str());
            if i + 1 < lines.len() {
                push_char(&mut r, ',');
            }
        }
        i = i + 1;
    }
    push_char(&mut r, ']');
    r
}

/// The list handed back when the search ends, from the content of the file
/// of approved notices.
pub fn approved_listing_json(content: &str) -> (r: String)
    ensures
        r@ == approved_listing(content@),
{
    let lines = split_lines(content);
    let ghost ls = views(lines@);
    let mut kept: Vec<String> = Vec::new();
    let mut i: usize = 0;
    while i < lines.len()
        invariant
            ls == views(lines@),
            i <= lines.len(),
            views(kept@) == kept_lines(ls.take(i as int)),
        decreases lines.len() - i,
    {
        assert(ls.take(i + 1).drop_last() =~= ls.take(i as int));
        if !is_blank(lines[i].as_str()) {
            let t = trim(lines[i].as_str());
            kept.push(t);
            assert(views(kept@) =~= views(kept@).drop_last().push(t@));
        }
        i = i + 1;
    }
    assert(ls.take(lines.len() as int) =~= ls);
    let mut r = String::new();
    push_char(&mut r, '[');
    let body = join_texts(&kept, ",");
    r.append(body.as_str());
    push_char(&mut r, ']');
    proof {
        reveal_strlit(",");
        assert(","@ =~= seq![',']);
    }
    r
}

/// Every line is non-blank and has no surrounding white space.
pub open spec fn all_lines_clean(ls: Seq<Seq<char>>) -> bool {
    forall|i: int| 0 <= i < ls.len() ==> !blank(#[trigger] ls[i]) && trimmed(ls[i]) == ls[i]
}

/// Every line is blank.
pub open spec fn all_lines_blank(ls: Seq<Seq<char>>) -> bool {
    forall|i: int| 0 <= i < ls.len() ==> blank(#[trigger] ls[i])
}

proof fn lemma_kept_clean(ls: Seq<Seq<char>>)
    requires
        all_lines_clean(ls),
    ensures
        kept_lines(ls) == ls,
    decreases ls.len(),
{
    if ls.len() > 0 {
        assert(all_lines_clean(ls.drop_last()));
        lemma_kept_clean(ls.drop_last());
        assert(ls.drop_last().push(ls.last()) =~= ls);
    }
}

proof fn lemma_kept_blank(ls: Seq<Seq<char>>)
    requires
        all_lines_blank(ls),
    ensures
        kept_lines(ls).len() == 0,
    decreases ls.len(),
{
    if ls.len() > 0 {
        assert(all_lines_blank(ls.drop_last()));
        lemma_kept_blank(ls.drop_last());
    }
}

proof fn lemma_history_blank(ls: Seq<Seq<char>>, k: nat)
    requires
        all_lines_blank(ls),
        k <= ls.len(),
    ensures
        history_items(ls, k).len() == 0,
    decreases k,
{
    if k > 0 {
        lemma_history_blank(ls, (k - 1) as nat);
        assert(blank(ls[k - 1]));
    }
}

proof fn lemma_history_clean(ls: Seq<Seq<char>>, k: nat)
    requires
        all_lines_clean(ls),
        1 <= k <= ls.len(),
    ensures
        history_items(ls, k) == joined(ls.take(k as int), seq![',']) + (if k < ls.len() {
            seq![',']
        } else {
            seq![]
        }),
    decreases k,
{
    assert(!blank(ls[k - 1]));
    if k == 1 {
        assert(history_items(ls, 0) == Seq::<char>::empty());
        assert(ls.take(1)[0] == ls[0]);
        if k < ls.len() {
            assert(history_items(ls, k) =~= ls[0] + seq![',']);
        } else {
            assert(history_items(ls, k) =~= ls[0]);
            assert(ls[0] + Seq::<char>::empty() =~= ls[0]);
        }
    } else {
        lemma_history_clean(ls, (k - 1) as nat);
        assert(ls.take(k as int).drop_last() =~= ls.take(k - 1));
        assert(ls.take(k as int).last() == ls[k - 1]);
        let prev = joined(ls.take(k - 1), seq![',']);
        if k < ls.len() {
            assert(history_items(ls, k) =~= prev + seq![','] + ls[k - 1] + seq![',']);
        } else {
            assert(history_items(ls, k) =~= prev + seq![','] + ls[k - 1]);
            assert(prev + seq![','] + ls[k - 1] + Seq::<char>::empty() =~= prev + seq![',']
                + ls[k - 1]);
        }
    }
}

/// When every line of the file of approved notices is a non-blank line
/// without surrounding white space (as the search writes them), the saved
/// history loaded at start and the list handed back when a search ends are
/// the same text.
pub proof fn lemma_listings_agree(content: Seq<char>)
    requires
        all_lines_clean(lines_of(content)),
    ensures
        saved_history(content) == approved_listing(content),
{
    let ls = lines_of(content);
    lemma_kept_clean(ls);
    if ls.len() == 0 {
        assert(history_items(ls, 0) == Seq::<char>::empty());
    } else {
        lemma_history_clean(ls, ls.len());
        assert(ls.take(ls.len() as int) =~= ls);
        assert(joined(ls, seq![',']) + Seq::<char>::empty() =~= joined(ls, seq![',']));
    }
}

/// A file of approved notices that holds only blank lines (or nothing)
/// gives `[]` both as the saved history and as the list handed back when a
/// search ends: the same text as when there is no such file.
pub proof fn lemma_blank_listings(content: Seq<char>)
    requires
        all_lines_blank(lines_of(content)),
    ensures
        saved_history(content) == seq!['[', ']'],
        approved_listing(content) == seq!['[', ']'],
{
    let ls = lines_of(content);
    lemma_kept_blank(ls);
    lemma_history_blank(ls, ls.len());
    assert(kept_lines(ls) =~= Seq::<Seq<char>>::empty());
    assert(seq!['['] + history_items(ls, ls.len()) + seq![']'] =~= seq!['[', ']']);
    assert(seq!['['] + joined(kept_lines(ls), seq![',']) + seq![']'] =~= seq!['[', ']']);
}

} // verus!
