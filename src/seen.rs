//! The seen registry: the URLs already dispatched, each admitted once.

use vstd::prelude::*;
use crate::text::{insert_new, text_set, texts};

verus! {

/// What marking `url` does to a registry holding `seen`: the registry's new contents,
/// and whether the URL was admitted.
pub open spec fn marked(seen: Set<Seq<char>>, url: Seq<char>) -> (Set<Seq<char>>, bool) {
    (seen.insert(url), !seen.contains(url))
}

/// The set of URLs that have been dispatched so far. Checking and inserting a URL is
/// one operation, `mark_if_new`, so that a URL is admitted at most once; callers that
/// share a registry between tasks hold it under one lock for that call.
pub struct SeenRegistry {
    urls: Vec<String>,
}

impl View for SeenRegistry {
    type V = Set<Seq<char>>;

    closed spec fn view(&self) -> Set<Seq<char>> {
        text_set(self.urls@)
    }
}

impl SeenRegistry {
    /// Each URL is held once.
    pub closed spec fn wf(&self) -> bool {
        texts(self.urls@).no_duplicates()
    }

    /// An empty registry.
    pub fn new() -> (r: SeenRegistry)
        ensures
            r.wf(),
            r@ == Set::<Seq<char>>::empty(),
    {
        let r = SeenRegistry { urls: Vec::new() };
        assert(r@ =~= Set::<Seq<char>>::empty());
        r
    }

    /// Whether `url` has been marked.
    pub fn contains(&self, url: &String) -> (r: bool)
        ensures
            r == self@.contains(url@),
    {
        crate::text::contains_text(&self.urls, url)
    }

    /// The number of URLs marked so far.
    pub fn len(&self) -> (r: usize)
        requires
            self.wf(),
        ensures
            r == self@.len(),
    {
        proof {
            texts(self.urls@).unique_seq_to_set();
        }
        self.urls.len()
    }

    /// Marks `url` as seen; `true` exactly when it had not been marked before.
    pub fn mark_if_new(&mut self, url: &str) -> (r: bool)
        requires
            old(self).wf(),
        ensures
            final(self).wf(),
            (final(self)@, r) == marked(old(self)@, url@),
    {
        insert_new(&mut self.urls, url.to_owned())
    }
}

/// Two presentations of one URL, in whichever order the registry's lock lets them in,
/// are never both admitted; when the URL had not been seen, exactly one of them is.
pub proof fn mark_twice_admits_once(seen: Set<Seq<char>>, url: Seq<char>)
    ensures
        ({
            let (after, first) = marked(seen, url);
            let (_, second) = marked(after, url);
            !(first && second) && ((first || second) <==> !seen.contains(url))
        }),
{
}

} // verus!
