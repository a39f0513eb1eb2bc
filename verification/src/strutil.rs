//! Small verified string utilities: equality, searching, splitting, trimming.
//!
//! Everything here works character-wise on `&str` views (`Seq<char>`), so the
//! parsing modules can state their contracts over plain character sequences.

use vstd::prelude::*;

verus! {

/// The views of a sequence of owned strings.
pub open spec fn views(ss: Seq<String>) -> Seq<Seq<char>> {
    ss.map_values(|s: String| s@)
}

pub proof fn lemma_views_push(ss: Seq<String>, x: String)
    ensures
        views(ss.push(x)) =~= views(ss).push(x@),
{
}

/// Character-wise string equality.
pub fn str_eq(a: &str, b: &str) -> (r: bool)
    ensures
        r == (a@ == b@),
{
    let n = a.unicode_len();
    let m = b.unicode_len();
    if n != m {
        return false;
    }
    let mut i: usize = 0;
    while i < n
        invariant
            i <= n,
            n == a@.len(),
            n == b@.len(),
            forall|j: int| 0 <= j < i ==> a@[j] == b@[j],
        decreases n - i,
    {
        if a.get_char(i) != b.get_char(i) {
            return false;
        }
        i = i + 1;
    }
    proof {
        assert(a@ =~= b@);
    }
    true
}

/// The index of the first occurrence of `c` at or after `from`.
pub fn find_char_from(s: &str, from: usize, c: char) -> (r: Option<usize>)
    requires
        from <= s@.len(),
    ensures
        match r {
            Some(k) => from <= k < s@.len() && s@[k as int] == c && (forall|j: int|
                from <= j < k ==> s@[j] != c),
            None => forall|j: int| from <= j < s@.len() ==> s@[j] != c,
        },
{
    let n = s.unicode_len();
    let mut i: usize = from;
    while i < n
        invariant
            from <= i <= n,
            n == s@.len(),
            forall|j: int| from <= j < i ==> s@[j] != c,
        decreases n - i,
    {
        if s.get_char(i) == c {
            return Some(i);
        }
        i = i + 1;
    }
    None
}

/// The number of characters before the first occurrence of `sep` in `s`
/// (`s.len()` when `sep` does not occur).
pub open spec fn first_sep(s: Seq<char>, sep: char) -> nat
    decreases s.len(),
{
    if s.len() == 0 {
        0
    } else if s[0] == sep {
        0
    } else {
        1 + first_sep(s.subrange(1, s.len() as int), sep)
    }
}

pub proof fn lemma_first_sep_at(s: Seq<char>, sep: char, k: int)
    requires
        0 <= k <= s.len(),
        forall|j: int| 0 <= j < k ==> s[j] != sep,
        k < s.len() ==> s[k] == sep,
    ensures
        first_sep(s, sep) == k,
    decreases s.len(),
{
    if s.len() == 0 {
    } else if k == 0 {
    } else {
        let t = s.subrange(1, s.len() as int);
        assert(forall|j: int| 0 <= j < k - 1 ==> t[j] == s[j + 1]);
        lemma_first_sep_at(t, sep, k - 1);
    }
}

/// Splitting `s` on `sep`: always at least one piece, pieces keep their
/// order, separators are dropped, empty pieces are preserved.
pub open spec fn split_on(s: Seq<char>, sep: char) -> Seq<Seq<char>>
    decreases s.len(),
{
    let k = first_sep(s, sep);
    if k >= s.len() {
        seq![s]
    } else {
        seq![s.subrange(0, k as int)] + split_on(s.subrange(k as int + 1, s.len() as int), sep)
    }
}

pub proof fn lemma_split_on_step(s: Seq<char>, sep: char, k: int)
    requires
        0 <= k < s.len(),
        s[k] == sep,
        forall|j: int| 0 <= j < k ==> s[j] != sep,
    ensures
        split_on(s, sep) == seq![s.subrange(0, k)] + split_on(
            s.subrange(k + 1, s.len() as int),
            sep,
        ),
{
    lemma_first_sep_at(s, sep, k);
}

pub proof fn lemma_split_on_none(s: Seq<char>, sep: char)
    requires
        forall|j: int| 0 <= j < s.len() ==> s[j] != sep,
    ensures
        split_on(s, sep) == seq![s],
{
    lemma_first_sep_at(s, sep, s.len() as int);
}

/// Split the character range `[from, to)` of `s` on `sep`.
pub fn split_range_on(s: &str, from: usize, to: usize, sep: char) -> (r: Vec<String>)
    requires
        from <= to <= s@.len(),
    ensures
        views(r@) == split_on(s@.subrange(from as int, to as int), sep),
{
    let ghost whole = s@.subrange(from as int, to as int);
    let mut r: Vec<String> = Vec::new();
    let mut start: usize = from;
    let mut i: usize = from;
    while i < to
        invariant
            from <= start <= i <= to <= s@.len(),
            whole == s@.subrange(from as int, to as int),
            forall|j: int| start <= j < i ==> s@[j] != sep,
            views(r@) + split_on(s@.subrange(start as int, to as int), sep) == split_on(
                whole,
                sep,
            ),
        decreases to - i,
    {
        if s.get_char(i) == sep {
            let piece = String::from_str(s.substring_char(start, i));
            proof {
                let tail = s@.subrange(start as int, to as int);
                assert(tail[i - start] == sep);
                assert(forall|j: int| 0 <= j < i - start ==> tail[j] == s@[j + start]);
                lemma_split_on_step(tail, sep, i - start);
                assert(tail.subrange(0, i - start) =~= s@.subrange(start as int, i as int));
                assert(tail.subrange(i - start + 1, tail.len() as int) =~= s@.subrange(
                    i as int + 1,
                    to as int,
                ));
                lemma_views_push(r@, piece);
                assert(views(r@.push(piece)) + split_on(
                    s@.subrange(i as int + 1, to as int),
                    sep,
                ) =~= views(r@) + split_on(s@.subrange(start as int, to as int), sep));
            }
            r.push(piece);
            start = i + 1;
        }
        i = i + 1;
    }
    let piece = String::from_str(s.substring_char(start, to));
    proof {
        lemma_split_on_none(s@.subrange(start as int, to as int), sep);
        lemma_views_push(r@, piece);
        assert(views(r@.push(piece)) =~= views(r@) + split_on(
            s@.subrange(start as int, to as int),
            sep,
        ));
    }
    r.push(piece);
    r
}

/// The characters this library treats as trimmable whitespace (the ASCII
/// whitespace set).
pub open spec fn is_space_char(c: char) -> bool {
    c == ' ' || c == '\t' || c == '\n' || c == '\r' || c == '\u{b}' || c == '\u{c}'
}

pub fn is_space(c: char) -> (r: bool)
    ensures
        r == is_space_char(c),
{
    c == ' ' || c == '\t' || c == '\n' || c == '\r' || c == '\u{b}' || c == '\u{c}'
}

/// `s` without its leading whitespace.
pub open spec fn trim_start_spec(s: Seq<char>) -> Seq<char>
    decreases s.len(),
{
    if s.len() > 0 && is_space_char(s[0]) {
        trim_start_spec(s.subrange(1, s.len() as int))
    } else {
        s
    }
}

/// `s` without its trailing whitespace.
pub open spec fn trim_end_spec(s: Seq<char>) -> Seq<char>
    decreases s.len(),
{
    if s.len() > 0 && is_space_char(s[s.len() - 1]) {
        trim_end_spec(s.subrange(0, s.len() - 1))
    } else {
        s
    }
}

/// `s` without leading and trailing whitespace.
pub open spec fn trim_spec(s: Seq<char>) -> Seq<char> {
    trim_end_spec(trim_start_spec(s))
}

proof fn lemma_trim_start_at(s: Seq<char>, a: int)
    requires
        0 <= a <= s.len(),
        forall|j: int| 0 <= j < a ==> is_space_char(s[j]),
        a < s.len() ==> !is_space_char(s[a]),
    ensures
        trim_start_spec(s) == s.subrange(a, s.len() as int),
    decreases s.len(),
{
    if a == 0 {
        assert(s.subrange(0, s.len() as int) =~= s);
    } else {
        let t = s.subrange(1, s.len() as int);
        assert(forall|j: int| 0 <= j < a - 1 ==> t[j] == s[j + 1]);
        lemma_trim_start_at(t, a - 1);
        assert(t.subrange(a - 1, t.len() as int) =~= s.subrange(a, s.len() as int));
    }
}

proof fn lemma_trim_end_at(s: Seq<char>, b: int)
    requires
        0 <= b <= s.len(),
        forall|j: int| b <= j < s.len() ==> is_space_char(s[j]),
        b > 0 ==> !is_space_char(s[b - 1]),
    ensures
        trim_end_spec(s) == s.subrange(0, b),
    decreases s.len(),
{
    if b == s.len() {
        assert(s.subrange(0, s.len() as int) =~= s);
    } else {
        let t = s.subrange(0, s.len() - 1);
        assert(forall|j: int| b <= j < t.len() ==> t[j] == s[j]);
        lemma_trim_end_at(t, b);
    }
}

/// `s` without leading and trailing ASCII whitespace.
pub fn trim_str<'a>(s: &'a str) -> (r: &'a str)
    ensures
        r@ == trim_spec(s@),
{
    let n = s.unicode_len();
    let mut a: usize = 0;
    while a < n && is_space(s.get_char(a))
        invariant
            a <= n,
            n == s@.len(),
            forall|j: int| 0 <= j < a ==> is_space_char(s@[j]),
        decreases n - a,
    {
        a = a + 1;
    }
    let mut b: usize = n;
    while b > a && is_space(s.get_char(b - 1))
        invariant
            a <= b <= n,
            n == s@.len(),
            forall|j: int| b <= j < n ==> is_space_char(s@[j]),
        decreases b,
    {
        b = b - 1;
    }
    let r = s.substring_char(a, b);
    proof {
        lemma_trim_start_at(s@, a as int);
        let t = s@.subrange(a as int, n as int);
        assert(forall|j: int| b - a <= j < t.len() ==> t[j] == s@[j + a]);
        lemma_trim_end_at(t, b - a);
        assert(t.subrange(0, b - a) =~= s@.subrange(a as int, b as int));
    }
    r
}

} // verus!
