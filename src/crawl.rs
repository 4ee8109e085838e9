//! The crawl scheduler's decisions for one page: what the page reports, and which of
//! its links are crawled next.

use vstd::prelude::*;
use vstd::string::*;
use crate::address::AbsUrl;
use crate::extract::{extract_links, page_hrefs};
use crate::resolve::{resolve_links, resolved_set};
use crate::scope::{filter_external, in_scope};
use crate::seen::SeenRegistry;
use crate::text::{text_set, texts};

verus! {

/// The in-scope links discovered on one page.
pub struct PageResult {
    /// The page's URL.
    pub url: String,
    /// The distinct absolute links on the page that are in scope.
    pub links: Vec<String>,
}

/// One line per link, each `  * <link>`.
pub open spec fn bullet_lines(links: Seq<Seq<char>>) -> Seq<char>
    decreases links.len(),
{
    if links.len() == 0 {
        Seq::empty()
    } else {
        bullet_lines(links.drop_last()) + seq![' ', ' ', '*', ' '] + links.last() + seq!['\n']
    }
}

/// A page result as the aggregator prints it: the page's URL on a line, a bullet line
/// per link, then an empty line.
pub open spec fn rendered(url: Seq<char>, links: Seq<Seq<char>>) -> Seq<char> {
    url + seq!['\n'] + bullet_lines(links) + seq!['\n']
}

impl PageResult {
    /// The result as the aggregator prints it (see `rendered`).
    pub fn render(&self) -> (r: String)
        ensures
            r@ == rendered(self.url@, texts(self.links@)),
    {
        proof {
            reveal_strlit("\n");
            reveal_strlit("  * ");
        }
        let mut out = self.url.clone();
        out.append("\n");
        let mut i: usize = 0;
        while i < self.links.len()
            invariant
                i <= self.links@.len(),
                out@ == self.url@ + seq!['\n'] + bullet_lines(texts(self.links@).subrange(0, i as int)),
            decreases self.links.len() - i,
        {
            let ghost done = texts(self.links@).subrange(0, i as int);
            let ghost next = texts(self.links@).subrange(0, i + 1);
            assert(next.drop_last() =~= done);
            assert(next.last() == self.links@[i as int]@);
            assert(bullet_lines(next) == bullet_lines(done) + seq![' ', ' ', '*', ' '] + next.last() + seq!['\n']);
            proof {
                reveal_strlit("\n");
                reveal_strlit("  * ");
            }
            assert("  * "@ =~= seq![' ', ' ', '*', ' ']);
            assert("\n"@ =~= seq!['\n']);
            out.append("  * ");
            out.append(self.links[i].as_str());
            out.append("\n");
            i += 1;
            assert(out@ =~= self.url@ + seq!['\n'] + bullet_lines(next));
        }
        assert(texts(self.links@).subrange(0, i as int) =~= texts(self.links@));
        proof {
            reveal_strlit("\n");
        }
        out.append("\n");
        assert(out@ =~= rendered(self.url@, texts(self.links@)));
        out
    }
}

/// The in-scope absolute URLs that the raw links of `body` resolve to, on a page whose
/// URL serializes as `page` with scheme `scheme`.
pub open spec fn page_links(page: Seq<char>, scheme: Seq<char>, body: Seq<char>, boundary: Seq<char>) -> Set<Seq<char>> {
    resolved_set(page, scheme, page_hrefs(body)).filter(|u: Seq<char>| in_scope(u, boundary))
}

/// `r` is what the page `page`, fetched with body `body`, reports under `boundary`.
pub open spec fn reports(r: PageResult, page: AbsUrl, body: Seq<char>, boundary: Seq<char>) -> bool {
    &&& r.url@ == page@
    &&& texts(r.links@).no_duplicates()
    &&& text_set(r.links@) == page_links(page@, page.scheme_view(), body, boundary)
}

/// The links of a page that are crawled next, given what the registry held before the
/// page was marked: those that neither the registry nor the page itself stand for.
pub open spec fn unseen_links(links: Set<Seq<char>>, page: Seq<char>, seen: Set<Seq<char>>) -> Set<Seq<char>> {
    links.filter(|l: Seq<char>| !seen.insert(page).contains(l))
}

/// Extracts the links of a fetched page, resolves them against the page's URL and
/// keeps those in scope of `boundary`.
pub fn page_result(page: &AbsUrl, body: &str, boundary: &str) -> (r: PageResult)
    ensures
        reports(r, *page, body@, boundary@),
{
    let raw = extract_links(body);
    let resolved = resolve_links(page, raw);
    let links = filter_external(resolved, boundary);
    PageResult { url: page.to_text(), links }
}

/// A page is never among its own follow-ups, and a page whose only links lead back to
/// itself has none: a crawl does not loop on a self-link.
pub proof fn self_links_are_not_followed(links: Set<Seq<char>>, page: Seq<char>, seen: Set<Seq<char>>)
    ensures
        !unseen_links(links, page, seen).contains(page),
        links.subset_of(set![page]) ==> unseen_links(links, page, seen) == Set::<Seq<char>>::empty(),
{
    if links.subset_of(set![page]) {
        assert(unseen_links(links, page, seen) =~= Set::<Seq<char>>::empty());
    }
}

/// Marks the page of `result` as seen, then marks each of its links and returns, each
/// once, those that were new: the links to crawl next. It is called once the result
/// has been sent, so that the result goes out whatever the registry holds.
pub fn follow_ups(result: &PageResult, seen: &mut SeenRegistry) -> (r: Vec<String>)
    requires
        old(seen).wf(),
    ensures
        final(seen).wf(),
        final(seen)@ == old(seen)@.insert(result.url@).union(text_set(result.links@)),
        texts(r@).no_duplicates(),
        text_set(r@) == unseen_links(text_set(result.links@), result.url@, old(seen)@),
        !text_set(r@).contains(result.url@),
{
    let ghost s0 = seen@.insert(result.url@);
    seen.mark_if_new(result.url.as_str());
    let mut r: Vec<String> = Vec::new();
    let mut i: usize = 0;
    while i < result.links.len()
        invariant
            i <= result.links@.len(),
            seen.wf(),
            seen@ == s0.union(texts(result.links@).subrange(0, i as int).to_set()),
            texts(r@).no_duplicates(),
            forall|x: Seq<char>| texts(r@).contains(x) ==> #[trigger] seen@.contains(x),
            text_set(r@) == texts(result.links@).subrange(0, i as int).to_set().filter(
                |l: Seq<char>| !s0.contains(l),
            ),
        decreases result.links.len() - i,
    {
        let ghost done = texts(result.links@).subrange(0, i as int);
        let ghost next = texts(result.links@).subrange(0, i + 1);
        let ghost l = result.links@[i as int]@;
        assert(next =~= done.push(l));
        proof {
            done.lemma_push_to_set_commute(l);
        }
        let ghost r0 = texts(r@);
        if seen.mark_if_new(result.links[i].as_str()) {
            r.push(result.links[i].clone());
            assert(texts(r@) =~= r0.push(l));
            assert forall|x: Seq<char>| #[trigger] texts(r@).contains(x) == (r0.contains(x) || x == l) by {
                if r0.contains(x) {
                    let k = choose|k: int| 0 <= k < r0.len() && r0[k] == x;
                    assert(texts(r@)[k] == x);
                }
                if x == l {
                    assert(texts(r@)[r0.len() as int] == x);
                }
                if texts(r@).contains(x) {
                    let k = choose|k: int| 0 <= k < texts(r@).len() && texts(r@)[k] == x;
                    if k < r0.len() {
                        assert(r0[k] == x);
                    }
                }
            }
            assert(texts(r@).to_set() =~= r0.to_set().insert(l));
            assert(text_set(r@) =~= next.to_set().filter(|l: Seq<char>| !s0.contains(l)));
        } else {
            assert(text_set(r@) =~= next.to_set().filter(|l: Seq<char>| !s0.contains(l)));
        }
        i += 1;
        assert(seen@ =~= s0.union(next.to_set()));
    }
    assert(texts(result.links@).subrange(0, i as int) =~= texts(result.links@));
    assert(text_set(r@) =~= unseen_links(text_set(result.links@), result.url@, old(seen)@));
    assert(seen@ =~= old(seen)@.insert(result.url@).union(text_set(result.links@)));
    r
}

} // verus!
