//! Helpers on strings and on lists of distinct strings.

use vstd::prelude::*;

verus! {

/// The character sequences held by a list of strings.
pub open spec fn texts(v: Seq<String>) -> Seq<Seq<char>> {
    v.map_values(|s: String| s@)
}

/// The set of character sequences held by a list of strings.
pub open spec fn text_set(v: Seq<String>) -> Set<Seq<char>> {
    texts(v).to_set()
}

/// `p` is a prefix of `s`.
pub open spec fn starts_with(s: Seq<char>, p: Seq<char>) -> bool {
    p.len() <= s.len() && s.subrange(0, p.len() as int) == p
}

/// The values present in a list of optional values.
pub open spec fn present(v: Seq<Option<Seq<char>>>) -> Set<Seq<char>> {
    Set::new(|h: Seq<char>| v.contains(Some(h)))
}

/// Appending an optional value adds what it holds to the values present.
pub proof fn lemma_present_push(s: Seq<Option<Seq<char>>>, x: Option<Seq<char>>)
    ensures
        present(s.push(x)) == match x {
            Some(h) => present(s).insert(h),
            None => present(s),
        },
{
    let t = s.push(x);
    assert forall|h: Seq<char>| #[trigger] t.contains(Some(h)) == (s.contains(Some(h)) || x == Some(h)) by {
        if s.contains(Some(h)) {
            let k = choose|k: int| 0 <= k < s.len() && s[k] == Some(h);
            assert(t[k] == Some(h));
        }
        if x == Some(h) {
            assert(t[s.len() as int] == Some(h));
        }
        if t.contains(Some(h)) {
            let k = choose|k: int| 0 <= k < t.len() && t[k] == Some(h);
            if k < s.len() {
                assert(s[k] == Some(h));
            }
        }
    }
    match x {
        Some(h) => assert(present(t) =~= present(s).insert(h)),
        None => assert(present(t) =~= present(s)),
    }
}

/// The characters of `s`, in order.
pub fn chars_of(s: &str) -> (r: Vec<char>)
    ensures
        r@ == s@,
{
    let n = s.unicode_len();
    let mut r: Vec<char> = Vec::new();
    let mut i: usize = 0;
    while i < n
        invariant
            n == s@.len(),
            i <= n,
            r@ == s@.subrange(0, i as int),
        decreases n - i,
    {
        r.push(s.get_char(i));
        i += 1;
        assert(r@ =~= s@.subrange(0, i as int));
    }
    assert(r@ =~= s@);
    r
}

/// Whether `s` begins with `p`.
pub fn has_prefix(s: &Vec<char>, p: &Vec<char>) -> (r: bool)
    ensures
        r == starts_with(s@, p@),
{
    if p.len() > s.len() {
        return false;
    }
    let mut i: usize = 0;
    while i < p.len()
        invariant
            p@.len() <= s@.len(),
            i <= p@.len(),
            forall|j: int| 0 <= j < i ==> s@[j] == p@[j],
        decreases p.len() - i,
    {
        if s[i] != p[i] {
            assert(s@.subrange(0, p@.len() as int)[i as int] != p@[i as int]);
            return false;
        }
        i += 1;
    }
    assert(s@.subrange(0, p@.len() as int) =~= p@);
    true
}

/// Whether `v` holds a string equal to `s`.
pub fn contains_text(v: &Vec<String>, s: &String) -> (r: bool)
    ensures
        r == texts(v@).contains(s@),
{
    let mut i: usize = 0;
    while i < v.len()
        invariant
            i <= v@.len(),
            forall|j: int| 0 <= j < i ==> v@[j]@ != s@,
        decreases v.len() - i,
    {
        if v[i] == *s {
            assert(texts(v@)[i as int] == s@);
            return true;
        }
        i += 1;
    }
    assert forall|k: int| 0 <= k < texts(v@).len() implies texts(v@)[k] != s@ by {}
    false
}

/// Appends `s` to `v` unless `v` already holds an equal string; tells whether it did.
pub fn insert_new(v: &mut Vec<String>, s: String) -> (added: bool)
    ensures
        added == !texts(old(v)@).contains(s@),
        texts(final(v)@) == if added {
            texts(old(v)@).push(s@)
        } else {
            texts(old(v)@)
        },
        text_set(final(v)@) == text_set(old(v)@).insert(s@),
        texts(old(v)@).no_duplicates() ==> texts(final(v)@).no_duplicates(),
{
    if contains_text(v, &s) {
        assert(text_set(v@) =~= text_set(v@).insert(s@));
        false
    } else {
        let ghost before = texts(v@);
        v.push(s);
        assert(texts(v@) =~= before.push(s@));
        let ghost after = texts(v@);
        assert forall|x: Seq<char>| #[trigger] after.contains(x) == (before.contains(x) || x == s@) by {
            if before.contains(x) {
                let k = choose|k: int| 0 <= k < before.len() && before[k] == x;
                assert(after[k] == x);
            }
            if x == s@ {
                assert(after[before.len() as int] == x);
            }
            if after.contains(x) {
                let k = choose|k: int| 0 <= k < after.len() && after[k] == x;
                if k < before.len() {
                    assert(before[k] == x);
                }
            }
        }
        assert(text_set(v@) =~= before.to_set().insert(s@));
        true
    }
}

} // verus!
