//! URL resolution: turning raw links into absolute URLs against a page's URL.

use vstd::prelude::*;
use vstd::string::*;
use crate::address::{joined, opt_text, parsed, AbsUrl};
use crate::text::{chars_of, has_prefix, insert_new, lemma_present_push, present, starts_with, text_set, texts};

verus! {

/// The two slashes that open a scheme-relative link.
pub open spec fn two_slashes() -> Seq<char> {
    seq!['/', '/']
}

/// `link` read as scheme-relative against a URL with scheme `scheme`: the scheme and a
/// colon are put in front and the result is parsed.
pub open spec fn with_scheme(scheme: Seq<char>, link: Seq<char>) -> Option<Seq<char>> {
    parsed(scheme + seq![':'] + link)
}

/// What a raw link resolves to on a page whose URL serializes as `base` with scheme
/// `scheme`: the link itself when it parses as absolute; for a link that opens with
/// two slashes, the link under the page's scheme; otherwise the link joined to the
/// page's URL. `None` when no absolute URL comes out.
pub open spec fn resolved(base: Seq<char>, scheme: Seq<char>, link: Seq<char>) -> Option<Seq<char>> {
    if parsed(link) is Some {
        parsed(link)
    } else if starts_with(link, two_slashes()) {
        with_scheme(scheme, link)
    } else {
        joined(base, link)
    }
}

/// A link that already parses as an absolute URL resolves to that URL, whatever the
/// page it stands on.
pub proof fn absolute_links_resolve_to_themselves(base: Seq<char>, scheme: Seq<char>, link: Seq<char>)
    requires
        parsed(link) is Some,
    ensures
        resolved(base, scheme, link) == parsed(link),
{
}

/// The ways a list of links can be resolved: scheme-relative links only, every
/// link as a path relative to the page, or each link as its form requires.
pub enum Stage {
    Schemes,
    Paths,
    Full,
}

/// What `link` becomes at a stage, on a page whose URL is `base` with scheme `scheme`.
pub open spec fn staged(stage: Stage, base: Seq<char>, scheme: Seq<char>, link: Seq<char>) -> Option<Seq<char>> {
    match stage {
        Stage::Schemes => if starts_with(link, two_slashes()) {
            with_scheme(scheme, link)
        } else {
            Some(link)
        },
        Stage::Paths => joined(base, link),
        Stage::Full => resolved(base, scheme, link),
    }
}

/// The distinct URLs that a list of links becomes at a stage; links that give none
/// are left out.
pub open spec fn staged_set(stage: Stage, base: Seq<char>, scheme: Seq<char>, links: Seq<Seq<char>>) -> Set<Seq<char>> {
    present(links.map_values(|l: Seq<char>| staged(stage, base, scheme, l)))
}

/// The distinct URLs that a set of raw links resolves to on a page; links that give
/// none are left out.
pub open spec fn resolved_set(base: Seq<char>, scheme: Seq<char>, links: Set<Seq<char>>) -> Set<Seq<char>> {
    Set::new(|u: Seq<char>| exists|l: Seq<char>| links.contains(l) && resolved(base, scheme, l) == Some(u))
}

proof fn lemma_full_stage(base: Seq<char>, scheme: Seq<char>, links: Seq<Seq<char>>)
    ensures
        staged_set(Stage::Full, base, scheme, links) == resolved_set(base, scheme, links.to_set()),
{
    let all = links.map_values(|l: Seq<char>| staged(Stage::Full, base, scheme, l));
    assert forall|u: Seq<char>| #[trigger] present(all).contains(u) == resolved_set(base, scheme, links.to_set()).contains(u) by {
        if present(all).contains(u) {
            let k = choose|k: int| 0 <= k < all.len() && all[k] == Some(u);
            assert(links.to_set().contains(links[k]) && resolved(base, scheme, links[k]) == Some(u));
        }
        if resolved_set(base, scheme, links.to_set()).contains(u) {
            let l = choose|l: Seq<char>| links.to_set().contains(l) && resolved(base, scheme, l) == Some(u);
            let k = choose|k: int| 0 <= k < links.len() && links[k] == l;
            assert(all[k] == Some(u));
        }
    }
    assert(present(all) =~= resolved_set(base, scheme, links.to_set()));
}

/// Whether `link` opens with two slashes.
fn is_scheme_relative(link: &str) -> (r: bool)
    ensures
        r == starts_with(link@, two_slashes()),
{
    let slashes: Vec<char> = vec!['/', '/'];
    assert(slashes@ =~= two_slashes());
    has_prefix(&chars_of(link), &slashes)
}

/// Parses `link` under the scheme of `base`: `<scheme>:<link>`.
fn parse_with_scheme(base: &AbsUrl, link: &str) -> (r: Option<AbsUrl>)
    ensures
        opt_text(r) == with_scheme(base.scheme_view(), link@),
{
    let mut s = base.scheme().to_owned();
    s.append(":");
    s.append(link);
    proof {
        reveal_strlit(":");
    }
    assert(s@ =~= base.scheme_view() + seq![':'] + link@);
    AbsUrl::parse(s.as_str())
}

/// Resolves one raw link against the URL of the page it was found on: an absolute
/// link is taken as it parses, a link that opens with `//` takes the page's scheme,
/// and any other link is joined to the page's URL. `None` when no absolute URL
/// comes out.
pub fn resolve_link(base: &AbsUrl, link: &str) -> (r: Option<AbsUrl>)
    ensures
        opt_text(r) == resolved(base@, base.scheme_view(), link@),
{
    match AbsUrl::parse(link) {
        Some(u) => Some(u),
        None => if is_scheme_relative(link) {
            parse_with_scheme(base, link)
        } else {
            base.join(link)
        },
    }
}

/// What one link becomes at a stage, as text.
fn stage_link(stage: &Stage, base: &AbsUrl, link: &String) -> (r: Option<String>)
    ensures
        match r {
            Some(s) => staged(*stage, base@, base.scheme_view(), link@) == Some(s@),
            None => staged(*stage, base@, base.scheme_view(), link@) is None,
        },
{
    let u = match stage {
        Stage::Schemes => if is_scheme_relative(link.as_str()) {
            parse_with_scheme(base, link.as_str())
        } else {
            return Some(link.clone());
        },
        Stage::Paths => base.join(link.as_str()),
        Stage::Full => resolve_link(base, link.as_str()),
    };
    match u {
        Some(v) => Some(v.to_text()),
        None => None,
    }
}

/// The distinct URLs that `links` become at a stage, each once.
fn resolve_all(stage: Stage, base: &AbsUrl, links: Vec<String>) -> (r: Vec<String>)
    ensures
        texts(r@).no_duplicates(),
        text_set(r@) == staged_set(stage, base@, base.scheme_view(), texts(links@)),
{
    let ghost f = |l: Seq<char>| staged(stage, base@, base.scheme_view(), l);
    let ghost all = texts(links@).map_values(f);
    let mut r: Vec<String> = Vec::new();
    let mut i: usize = 0;
    while i < links.len()
        invariant
            i <= links@.len(),
            all == texts(links@).map_values(f),
            f == (|l: Seq<char>| staged(stage, base@, base.scheme_view(), l)),
            texts(r@).no_duplicates(),
            text_set(r@) == present(all.subrange(0, i as int)),
        decreases links.len() - i,
    {
        proof {
            assert(all.subrange(0, i + 1) =~= all.subrange(0, i as int).push(all[i as int]));
            lemma_present_push(all.subrange(0, i as int), all[i as int]);
        }
        match stage_link(&stage, base, &links[i]) {
            Some(s) => {
                insert_new(&mut r, s);
            },
            None => {},
        }
        i += 1;
    }
    assert(all.subrange(0, links@.len() as int) =~= all);
    r
}

/// Resolves each link as its form requires (see `resolve_link`); links that give no
/// absolute URL are dropped, and equal results are kept once.
pub fn resolve_links(base: &AbsUrl, links: Vec<String>) -> (r: Vec<String>)
    ensures
        texts(r@).no_duplicates(),
        text_set(r@) == resolved_set(base@, base.scheme_view(), text_set(links@)),
{
    proof {
        lemma_full_stage(base@, base.scheme_view(), texts(links@));
    }
    resolve_all(Stage::Full, base, links)
}

/// Gives each link that opens with `//` the scheme of `base` and parses it; other
/// links are kept as they are, scheme-relative ones that do not parse are dropped,
/// and equal results are kept once.
pub fn resolve_relative_schemes(base: &AbsUrl, links: Vec<String>) -> (r: Vec<String>)
    ensures
        texts(r@).no_duplicates(),
        text_set(r@) == staged_set(Stage::Schemes, base@, base.scheme_view(), texts(links@)),
{
    resolve_all(Stage::Schemes, base, links)
}

/// Joins each link to `base` with standard URL-joining rules; links that do not
/// join are dropped, and equal results are kept once.
pub fn resolve_relative_paths(base: &AbsUrl, links: Vec<String>) -> (r: Vec<String>)
    ensures
        texts(r@).no_duplicates(),
        text_set(r@) == staged_set(Stage::Paths, base@, base.scheme_view(), texts(links@)),
{
    resolve_all(Stage::Paths, base, links)
}

} // verus!
