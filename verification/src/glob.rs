//! The glob decomposer: splits a path pattern around a recursive-match
//! marker into a base directory and a list of allowed extensions.
//!
//! The dialect is deliberately narrow: the first occurrence of `/**/*.` (or
//! of the backslash-separated form) starts the extension part, which is
//! either a brace-delimited comma-separated list or a single literal
//! extension. Nothing else is interpreted.

use vstd::prelude::*;

use crate::error::LoaderError;
use crate::strutil::{first_sep, find_char_from, lemma_first_sep_at, lemma_views_push, split_on,
    split_range_on, views};

verus! {

/// A recursive-match marker with separator `sep` starts at index `i` of `s`.
pub open spec fn marker_at(s: Seq<char>, i: int, sep: char) -> bool {
    &&& 0 <= i
    &&& i + 6 <= s.len()
    &&& s[i] == sep
    &&& s[i + 1] == '*'
    &&& s[i + 2] == '*'
    &&& s[i + 3] == sep
    &&& s[i + 4] == '*'
    &&& s[i + 5] == '.'
}

/// `s` contains a recursive-match marker in either separator style.
pub open spec fn has_marker(s: Seq<char>) -> bool {
    (exists|j: int| marker_at(s, j, '/')) || (exists|j: int| marker_at(s, j, '\\'))
}

/// `i` is the position the decomposer honours: the first slash marker when
/// one exists anywhere, otherwise the first backslash marker.
pub open spec fn is_marker_start(s: Seq<char>, i: int) -> bool {
    if exists|j: int| marker_at(s, j, '/') {
        marker_at(s, i, '/') && (forall|j: int| 0 <= j < i ==> !marker_at(s, j, '/'))
    } else {
        marker_at(s, i, '\\') && (forall|j: int| 0 <= j < i ==> !marker_at(s, j, '\\'))
    }
}

/// The honoured marker position of `s` (meaningful only when `has_marker(s)`).
pub open spec fn marker_start_of(s: Seq<char>) -> int {
    choose|i: int| is_marker_start(s, i)
}

pub proof fn lemma_marker_start_unique(s: Seq<char>, i: int)
    requires
        is_marker_start(s, i),
    ensures
        has_marker(s),
        marker_start_of(s) == i,
{
    let m = marker_start_of(s);
    assert(is_marker_start(s, m));
    if m < i {
        assert(false);
    } else if i < m {
        assert(false);
    }
}

fn marker_char_at(s: &str, i: usize, sep: char) -> (r: bool)
    requires
        i + 6 <= s@.len(),
        i + 6 <= usize::MAX,
    ensures
        r == marker_at(s@, i as int, sep),
{
    s.get_char(i) == sep && s.get_char(i + 1) == '*' && s.get_char(i + 2) == '*' && s.get_char(
        i + 3,
    ) == sep && s.get_char(i + 4) == '*' && s.get_char(i + 5) == '.'
}

fn find_marker_with(s: &str, sep: char) -> (r: Option<usize>)
    ensures
        match r {
            Some(i) => marker_at(s@, i as int, sep) && (forall|j: int|
                0 <= j < i ==> !marker_at(s@, j, sep)),
            None => forall|j: int| !marker_at(s@, j, sep),
        },
{
    let n = s.unicode_len();
    if n < 6 {
        return None;
    }
    let mut i: usize = 0;
    while i <= n - 6
        invariant
            n == s@.len(),
            6 <= n,
            i <= n - 6 + 1,
            forall|j: int| 0 <= j < i ==> !marker_at(s@, j, sep),
        decreases n - i,
    {
        if marker_char_at(s, i, sep) {
            return Some(i);
        }
        i = i + 1;
    }
    None
}

fn find_marker(s: &str) -> (r: Option<usize>)
    ensures
        match r {
            Some(i) => is_marker_start(s@, i as int),
            None => !has_marker(s@),
        },
{
    match find_marker_with(s, '/') {
        Some(i) => Some(i),
        None => find_marker_with(s, '\\'),
    }
}

/// What `parse_glob` returns on an input whose view is `s`, case by case:
/// no marker — the input unchanged and no extensions; a marker with no later
/// closing brace — everything after the marker as one literal extension; a
/// marker with a well-formed brace list — its comma-split contents; a marker
/// with a closing brace but no opening one — an `InvalidPattern` error.
pub open spec fn glob_parse_ok(s: Seq<char>, r: Result<(String, Vec<String>), LoaderError>) -> bool {
    if !has_marker(s) {
        match r {
            Ok(p) => p.0@ == s && views(p.1@) == Seq::<Seq<char>>::empty(),
            Err(_) => false,
        }
    } else {
        let start = marker_start_of(s);
        let k = start + first_sep(s.subrange(start, s.len() as int), '}');
        if k == s.len() {
            match r {
                Ok(p) => p.0@ == s.subrange(0, start) && views(p.1@) == seq![
                    s.subrange(start + 6, s.len() as int),
                ],
                Err(_) => false,
            }
        } else {
            let ext = s.subrange(start + 6, k + 1);
            if ext.len() > 0 && ext[0] == '{' && ext[ext.len() - 1] == '}' {
                match r {
                    Ok(p) => p.0@ == s.subrange(0, start) && views(p.1@) == split_on(
                        ext.subrange(1, ext.len() - 1),
                        ',',
                    ),
                    Err(_) => false,
                }
            } else {
                match r {
                    Ok(_) => false,
                    Err(e) => e matches LoaderError::InvalidPattern { path } && path@ == s,
                }
            }
        }
    }
}

/// Decompose a path pattern into a base path and an extension list.
///
/// Inputs without the recursive-match marker come back unchanged, with an
/// empty extension list.
pub fn parse_glob(path_str: &str) -> (r: Result<(String, Vec<String>), LoaderError>)
    ensures
        glob_parse_ok(path_str@, r),
        !has_marker(path_str@) ==> match r {
            Ok(p) => p.0@ == path_str@ && p.1@.len() == 0,
            Err(_) => false,
        },
{
    let ghost s = path_str@;
    let n = path_str.unicode_len();
    match find_marker(path_str) {
        None => {
            let exts: Vec<String> = Vec::new();
            proof {
                assert(views(exts@) =~= Seq::<Seq<char>>::empty());
            }
            Ok((path_str.to_owned(), exts))
        },
        Some(start) => {
            proof {
                lemma_marker_start_unique(s, start as int);
            }
            let base = String::from_str(path_str.substring_char(0, start));
            match find_char_from(path_str, start, '}') {
                None => {
                    let ext = String::from_str(path_str.substring_char(start + 6, n));
                    let mut exts: Vec<String> = Vec::new();
                    proof {
                        let tail = s.subrange(start as int, n as int);
                        assert(forall|j: int|
                            0 <= j < tail.len() ==> tail[j] == s[j + start]);
                        lemma_first_sep_at(tail, '}', tail.len() as int);
                        lemma_views_push(exts@, ext);
                        assert(views(exts@.push(ext)) =~= seq![s.subrange(start + 6, n as int)]);
                    }
                    exts.push(ext);
                    Ok((base, exts))
                },
                Some(k) => {
                    proof {
                        let tail = s.subrange(start as int, n as int);
                        assert(forall|j: int|
                            0 <= j < tail.len() ==> tail[j] == s[j + start]);
                        lemma_first_sep_at(tail, '}', k - start);
                        // the marker itself holds no closing brace, so the
                        // first one sits at or after the extension part
                        assert(k >= start + 6) by {
                            if k < start + 6 {
                                assert(s[k as int] == '}');
                            }
                        }
                    }
                    if path_str.get_char(start + 6) == '{' {
                        let exts = split_range_on(path_str, start + 7, k, ',');
                        proof {
                            let ext = s.subrange(start as int + 6, k as int + 1);
                            assert(ext[0] == '{');
                            assert(ext[ext.len() - 1] == '}');
                            assert(ext.subrange(1, ext.len() - 1) =~= s.subrange(
                                start as int + 7,
                                k as int,
                            ));
                        }
                        Ok((base, exts))
                    } else {
                        proof {
                            let ext = s.subrange(start as int + 6, k as int + 1);
                            assert(ext[0] != '{');
                        }
                        Err(LoaderError::InvalidPattern { path: path_str.to_owned() })
                    }
                },
            }
        },
    }
}

} // verus!
