//! The scope filter: only links on the seed's authority are followed.

use vstd::prelude::*;
use crate::text::{chars_of, has_prefix, insert_new, lemma_present_push, present, starts_with, text_set, texts};

verus! {

/// `http://`
pub open spec fn http_prefix() -> Seq<char> {
    seq!['h', 't', 't', 'p', ':', '/', '/']
}

/// `https://`
pub open spec fn https_prefix() -> Seq<char> {
    seq!['h', 't', 't', 'p', 's', ':', '/', '/']
}

/// A serialized URL is in scope of `boundary` when it starts with `http://<boundary>`
/// or `https://<boundary>`, compared as text.
pub open spec fn in_scope(url: Seq<char>, boundary: Seq<char>) -> bool {
    starts_with(url, http_prefix() + boundary) || starts_with(url, https_prefix() + boundary)
}

/// What the filter makes of one link: the link itself when it is in scope.
pub open spec fn kept(boundary: Seq<char>, link: Seq<char>) -> Option<Seq<char>> {
    if in_scope(link, boundary) {
        Some(link)
    } else {
        None
    }
}

/// Whether `url` starts with `http://<boundary>` or `https://<boundary>`.
pub fn is_in_scope(url: &String, boundary: &Vec<char>) -> (r: bool)
    ensures
        r == in_scope(url@, boundary@),
{
    let text = chars_of(url.as_str());
    let mut http: Vec<char> = vec!['h', 't', 't', 'p', ':', '/', '/'];
    let mut https: Vec<char> = vec!['h', 't', 't', 'p', 's', ':', '/', '/'];
    let mut b1 = boundary.clone();
    let mut b2 = boundary.clone();
    http.append(&mut b1);
    https.append(&mut b2);
    assert(http@ =~= http_prefix() + boundary@);
    assert(https@ =~= https_prefix() + boundary@);
    has_prefix(&text, &http) || has_prefix(&text, &https)
}

/// Keeps the links whose text starts with `http://<allowed_subdomain>` or
/// `https://<allowed_subdomain>`, each once.
pub fn filter_external(links: Vec<String>, allowed_subdomain: &str) -> (r: Vec<String>)
    ensures
        texts(r@).no_duplicates(),
        text_set(r@) == text_set(links@).filter(|l: Seq<char>| in_scope(l, allowed_subdomain@)),
{
    let boundary = chars_of(allowed_subdomain);
    let ghost b = allowed_subdomain@;
    let ghost all = texts(links@).map_values(|l: Seq<char>| kept(b, l));
    let mut r: Vec<String> = Vec::new();
    let mut i: usize = 0;
    while i < links.len()
        invariant
            i <= links@.len(),
            boundary@ == b,
            all == texts(links@).map_values(|l: Seq<char>| kept(b, l)),
            texts(r@).no_duplicates(),
            text_set(r@) == present(all.subrange(0, i as int)),
        decreases links.len() - i,
    {
        proof {
            assert(all.subrange(0, i + 1) =~= all.subrange(0, i as int).push(all[i as int]));
            lemma_present_push(all.subrange(0, i as int), all[i as int]);
        }
        if is_in_scope(&links[i], &boundary) {
            insert_new(&mut r, links[i].clone());
        }
        i += 1;
    }
    assert(all.subrange(0, links@.len() as int) =~= all);
    let ghost want = text_set(links@).filter(|l: Seq<char>| in_scope(l, b));
    assert forall|l: Seq<char>| #[trigger] present(all).contains(l) == want.contains(l) by {
        if present(all).contains(l) {
            let k = choose|k: int| 0 <= k < all.len() && all[k] == Some(l);
            assert(texts(links@)[k] == l);
        }
        if want.contains(l) {
            let k = choose|k: int| 0 <= k < texts(links@).len() && texts(links@)[k] == l;
            assert(all[k] == Some(l));
        }
    }
    assert(present(all) =~= want);
    r
}

} // verus!
