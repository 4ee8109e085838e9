//! Link extraction: the distinct `href` values of a page's `<a>` and `<link>` elements.

use vstd::prelude::*;
use crate::text::{insert_new, lemma_present_push, present, text_set, texts};

verus! {

/// The `href` attribute of each element of the parsed document `text` that the
/// CSS selector `selector` matches, in the order in which the parser created them
/// (`None` for an element without one); empty when `selector` is not a valid selector.
pub uninterp spec fn element_hrefs(text: Seq<char>, selector: Seq<char>) -> Seq<Option<Seq<char>>>;

/// The character sequences held by a list of optional strings.
pub open spec fn opt_texts(v: Seq<Option<String>>) -> Seq<Option<Seq<char>>> {
    v.map_values(|o: Option<String>| match o {
        Some(s) => Some(s@),
        None => None,
    })
}

/// The raw links of a page: the `href` values of its anchor and link elements.
pub open spec fn page_hrefs(text: Seq<char>) -> Set<Seq<char>> {
    present(element_hrefs(text, seq!['a']) + element_hrefs(text, seq!['l', 'i', 'n', 'k']))
}

/// Relies on `scraper::Html::parse_document`, `scraper::Selector::parse`,
/// `scraper::Html::select` and `scraper::node::Element::attr`: the document is
/// parsed leniently and every element that the selector matches is reported, in the
/// order of the document's node arena, with its `href` attribute.
#[verifier::external_body]
fn select_hrefs(text: &str, selector: &str) -> (r: Vec<Option<String>>)
    ensures
        opt_texts(r@) == element_hrefs(text@, selector@),
{
    let document = scraper::Html::parse_document(text);
    match scraper::Selector::parse(selector) {
        Ok(sel) => document.select(&sel).map(|e| e.value().attr("href").map(|h| h.to_string())).collect(),
        Err(_) => Vec::new(),
    }
}

/// A page without anchor or link elements has no raw links.
pub proof fn no_elements_no_links(text: Seq<char>)
    requires
        element_hrefs(text, seq!['a']).len() == 0,
        element_hrefs(text, seq!['l', 'i', 'n', 'k']).len() == 0,
    ensures
        page_hrefs(text) == Set::<Seq<char>>::empty(),
{
    let all = element_hrefs(text, seq!['a']) + element_hrefs(text, seq!['l', 'i', 'n', 'k']);
    assert(all.len() == 0);
    assert(page_hrefs(text) =~= Set::<Seq<char>>::empty());
}

/// The distinct values present in `found`, each once.
pub fn collect_hrefs(found: Vec<Option<String>>) -> (r: Vec<String>)
    ensures
        texts(r@).no_duplicates(),
        text_set(r@) == present(opt_texts(found@)),
{
    let mut r: Vec<String> = Vec::new();
    let mut i: usize = 0;
    let ghost all = opt_texts(found@);
    while i < found.len()
        invariant
            i <= found@.len(),
            all == opt_texts(found@),
            texts(r@).no_duplicates(),
            text_set(r@) == present(all.subrange(0, i as int)),
        decreases found.len() - i,
    {
        let ghost before = text_set(r@);
        proof {
            assert(all.subrange(0, i + 1) =~= all.subrange(0, i as int).push(all[i as int]));
            lemma_present_push(all.subrange(0, i as int), all[i as int]);
        }
        match &found[i] {
            Some(h) => {
                insert_new(&mut r, h.clone());
                assert(present(all.subrange(0, i + 1)) =~= before.insert(h@));
            },
            None => {
                assert(present(all.subrange(0, i + 1)) =~= before);
            },
        }
        i += 1;
    }
    assert(all.subrange(0, found@.len() as int) =~= all);
    r
}

/// The distinct `href` values of the anchor (`<a>`) and link (`<link>`) elements
/// of a page, each once; malformed markup is read leniently.
pub fn extract_links(text: &str) -> (r: Vec<String>)
    ensures
        texts(r@).no_duplicates(),
        text_set(r@) == page_hrefs(text@),
{
    let mut found = select_hrefs(text, "a");
    let mut more = select_hrefs(text, "link");
    proof {
        reveal_strlit("a");
        reveal_strlit("link");
        assert("a"@ =~= seq!['a']);
        assert("link"@ =~= seq!['l', 'i', 'n', 'k']);
    }
    let ghost a = found@;
    let ghost b = more@;
    found.append(&mut more);
    assert(opt_texts(found@) =~= opt_texts(a) + opt_texts(b));
    collect_hrefs(found)
}

} // verus!
