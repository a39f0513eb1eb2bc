//! The extension filter: extracting a file path's extension component and
//! deciding whether the path qualifies under an optional extension set.
//!
//! Paths are plain character strings here; both `/` and `\` act as
//! component separators, matching the two separator styles the glob
//! decomposer accepts.

use vstd::prelude::*;

use crate::strutil::{str_eq, views};

verus! {

pub open spec fn is_sep_char(c: char) -> bool {
    c == '/' || c == '\\'
}

/// The index right after the last path separator: where the final path
/// component begins (0 when the path has no separator).
pub open spec fn component_start(s: Seq<char>) -> int
    decreases s.len(),
{
    if s.len() == 0 {
        0
    } else if is_sep_char(s[s.len() - 1]) {
        s.len() as int
    } else {
        component_start(s.subrange(0, s.len() - 1))
    }
}

/// The index right after the last dot of `s` (0 when `s` has no dot).
pub open spec fn after_last_dot(s: Seq<char>) -> int
    decreases s.len(),
{
    if s.len() == 0 {
        0
    } else if s[s.len() - 1] == '.' {
        s.len() as int
    } else {
        after_last_dot(s.subrange(0, s.len() - 1))
    }
}

/// The extension of a path: the part of its final component after the last
/// dot, provided that dot is neither absent nor the component's first
/// character. A path like `a/b.md` has extension `md`; `b`, `.gitignore`
/// and `dir.x/plain` have none.
pub open spec fn ext_of(p: Seq<char>) -> Option<Seq<char>> {
    let comp = p.subrange(component_start(p), p.len() as int);
    let d = after_last_dot(comp);
    if d >= 2 {
        Some(comp.subrange(d, comp.len() as int))
    } else {
        None
    }
}

proof fn lemma_component_start_at(s: Seq<char>, k: int)
    requires
        0 <= k <= s.len(),
        k > 0 ==> is_sep_char(s[k - 1]),
        forall|j: int| k <= j < s.len() ==> !is_sep_char(s[j]),
    ensures
        component_start(s) == k,
    decreases s.len(),
{
    if k == s.len() {
    } else {
        let t = s.subrange(0, s.len() - 1);
        assert(forall|j: int| 0 <= j < t.len() ==> t[j] == s[j]);
        lemma_component_start_at(t, k);
    }
}

proof fn lemma_after_last_dot_at(s: Seq<char>, k: int)
    requires
        0 <= k <= s.len(),
        k > 0 ==> s[k - 1] == '.',
        forall|j: int| k <= j < s.len() ==> s[j] != '.',
    ensures
        after_last_dot(s) == k,
    decreases s.len(),
{
    if k == s.len() {
    } else {
        let t = s.subrange(0, s.len() - 1);
        assert(forall|j: int| 0 <= j < t.len() ==> t[j] == s[j]);
        lemma_after_last_dot_at(t, k);
    }
}

fn is_sep(c: char) -> (r: bool)
    ensures
        r == is_sep_char(c),
{
    c == '/' || c == '\\'
}

/// The extension component of a path, decoded as text.
pub fn extension_of(path: &str) -> (r: Option<String>)
    ensures
        match r {
            Some(e) => ext_of(path@) == Some(e@),
            None => ext_of(path@) is None,
        },
{
    let ghost s = path@;
    let n = path.unicode_len();
    let mut cs: usize = n;
    loop
        invariant
            cs <= n,
            n == s.len(),
            s == path@,
            forall|j: int| cs <= j < n ==> !is_sep_char(s[j]),
        ensures
            cs <= n,
            forall|j: int| cs <= j < n ==> !is_sep_char(s[j]),
            cs > 0 ==> is_sep_char(s[cs - 1]),
        decreases cs,
    {
        if cs == 0 {
            break;
        }
        if is_sep(path.get_char(cs - 1)) {
            break;
        }
        cs = cs - 1;
    }
    proof {
        lemma_component_start_at(s, cs as int);
    }
    let mut d: usize = n;
    loop
        invariant
            cs <= d <= n,
            n == s.len(),
            s == path@,
            forall|j: int| d <= j < n ==> s[j] != '.',
        ensures
            cs <= d <= n,
            forall|j: int| d <= j < n ==> s[j] != '.',
            d > cs ==> s[d - 1] == '.',
        decreases d,
    {
        if d == cs {
            break;
        }
        if path.get_char(d - 1) == '.' {
            break;
        }
        d = d - 1;
    }
    proof {
        let comp = s.subrange(cs as int, n as int);
        assert(forall|j: int| 0 <= j < comp.len() ==> comp[j] == s[j + cs]);
        lemma_after_last_dot_at(comp, d - cs);
    }
    if d - cs >= 2 {
        let e = String::from_str(path.substring_char(d, n));
        proof {
            let comp = s.subrange(cs as int, n as int);
            assert(comp.subrange(d - cs, comp.len() as int) =~= s.subrange(d as int, n as int));
        }
        Some(e)
    } else {
        None
    }
}

/// The views of an optional borrowed extension list.
pub open spec fn suffix_views(sfx: Option<&Vec<String>>) -> Option<Seq<Seq<char>>> {
    match sfx {
        None => None,
        Some(v) => Some(views(v@)),
    }
}

/// The filter's decision: absent or empty sets accept everything; a
/// non-empty set accepts exactly the paths whose extension is a member.
pub open spec fn accepts(sfx: Option<Seq<Seq<char>>>, p: Seq<char>) -> bool {
    match sfx {
        None => true,
        Some(list) => list.len() == 0 || (ext_of(p) matches Some(e) && list.contains(e)),
    }
}

/// A path without an extension component passes the filter exactly when the
/// filter is absent or empty; with a non-empty filter it is always rejected.
pub proof fn lemma_no_extension_rejected(sfx: Option<Seq<Seq<char>>>, p: Seq<char>)
    requires
        ext_of(p) is None,
    ensures
        accepts(sfx, p) <==> (sfx is None || (sfx matches Some(list) && list.len() == 0)),
{
}

/// Decide whether `path` qualifies under the optional extension set.
pub fn is_valid_extension(suffixes: Option<&Vec<String>>, path: &str) -> (r: bool)
    ensures
        r == accepts(suffix_views(suffixes), path@),
{
    match suffixes {
        None => true,
        Some(list) => {
            if list.len() == 0 {
                return true;
            }
            match extension_of(path) {
                None => false,
                Some(e) => {
                    let mut i: usize = 0;
                    while i < list.len()
                        invariant
                            i <= list.len(),
                            ext_of(path@) == Some(e@),
                            suffixes == Some(list),
                            forall|j: int| 0 <= j < i ==> list@[j]@ != e@,
                        decreases list.len() - i,
                    {
                        if str_eq(list[i].as_str(), e.as_str()) {
                            proof {
                                assert(views(list@)[i as int] == e@);
                                assert(views(list@).contains(e@));
                                assert(ext_of(path@) == Some(e@));
                                assert(accepts(suffix_views(suffixes), path@));
                            }
                            return true;
                        }
                        i = i + 1;
                    }
                    proof {
                        assert(forall|j: int|
                            0 <= j < views(list@).len() ==> views(list@)[j] != e@);
                    }
                    false
                },
            }
        },
    }
}

/// Append `path` to `files` when it passes the filter; leave `files`
/// unchanged otherwise.
pub fn add_file(files: &mut Vec<String>, suffixes: Option<&Vec<String>>, path: &str)
    ensures
        accepts(suffix_views(suffixes), path@) ==> views(final(files)@) == views(
            old(files)@,
        ).push(path@),
        !accepts(suffix_views(suffixes), path@) ==> final(files)@ == old(files)@,
{
    if is_valid_extension(suffixes, path) {
        let owned = path.to_owned();
        proof {
            crate::strutil::lemma_views_push(files@, owned);
        }
        files.push(owned);
    }
}

} // verus!
