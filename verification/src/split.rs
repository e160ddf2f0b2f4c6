//! Character-level string searching and splitting.
//!
//! The inbound request and the registrar responses are both parsed by
//! splitting on fixed separator strings.  This module defines the
//! mathematical meaning of "first occurrence", "split once" and "split all",
//! and executable functions proved against those definitions.

use vstd::prelude::*;
use vstd::string::*;

verus! {

/// `pat` occurs in `s` starting at index `i`.
pub open spec fn occurs_at(s: Seq<char>, pat: Seq<char>, i: int) -> bool {
    0 <= i && i + pat.len() <= s.len() && s.subrange(i, i + pat.len() as int) == pat
}

/// Index of the first occurrence of a nonempty `pat` in `s` at or after
/// `from`; an empty pattern is never searched for.
pub open spec fn find_from(s: Seq<char>, pat: Seq<char>, from: int) -> Option<int>
    decreases s.len() - from,
{
    if from < 0 || from + pat.len() > s.len() || pat.len() == 0 {
        None
    } else if s.subrange(from, from + pat.len() as int) == pat {
        Some(from)
    } else {
        find_from(s, pat, from + 1)
    }
}

/// Index of the first occurrence of `pat` in `s`.
pub open spec fn spec_find(s: Seq<char>, pat: Seq<char>) -> Option<int> {
    find_from(s, pat, 0)
}

/// The parts before and after the first occurrence of `pat`, if any.
pub open spec fn spec_split_once(s: Seq<char>, pat: Seq<char>) -> Option<(Seq<char>, Seq<char>)> {
    match spec_find(s, pat) {
        None => None,
        Some(i) => Some((s.subrange(0, i), s.subrange(i + pat.len() as int, s.len() as int))),
    }
}

/// The pieces of `s` between occurrences of `pat`, leftmost-first, as
/// `str::split` yields them: always at least one piece, and a separator at
/// the very end yields a trailing empty piece.
pub open spec fn spec_split(s: Seq<char>, pat: Seq<char>) -> Seq<Seq<char>>
    decreases s.len(),
    when pat.len() > 0
    via spec_split_dec
{
    match spec_split_once(s, pat) {
        None => seq![s],
        Some((a, b)) => seq![a] + spec_split(b, pat),
    }
}

#[via_fn]
proof fn spec_split_dec(s: Seq<char>, pat: Seq<char>) {
    if spec_find(s, pat) is Some {
        lemma_find_from_spec(s, pat, 0);
    }
}

/// What `find_from` returns is the least occurrence at or after `from`,
/// and `None` means there is none.
pub proof fn lemma_find_from_spec(s: Seq<char>, pat: Seq<char>, from: int)
    requires
        0 <= from,
        pat.len() > 0,
    ensures
        match find_from(s, pat, from) {
            Some(i) => from <= i && occurs_at(s, pat, i) && (forall|j: int|
                from <= j < i ==> !occurs_at(s, pat, j)),
            None => forall|j: int| from <= j ==> !occurs_at(s, pat, j),
        },
    decreases s.len() - from,
{
    if from + pat.len() > s.len() {
        assert forall|j: int| from <= j implies !occurs_at(s, pat, j) by {}
    } else if s.subrange(from, from + pat.len() as int) == pat {
    } else {
        lemma_find_from_spec(s, pat, from + 1);
        assert(!occurs_at(s, pat, from));
    }
}

/// The first occurrence of `pat` in `s` is `None` exactly when `pat` occurs
/// nowhere in `s`.
pub proof fn lemma_find_none(s: Seq<char>, pat: Seq<char>)
    requires
        pat.len() > 0,
    ensures
        spec_find(s, pat) is None <==> (forall|j: int| !occurs_at(s, pat, j)),
{
    lemma_find_from_spec(s, pat, 0);
    if spec_find(s, pat) is Some {
        let i = spec_find(s, pat)->Some_0;
        assert(occurs_at(s, pat, i));
    }
}

/// If `pat` occurs at `k` and nowhere earlier, then `k` is the first
/// occurrence.
pub proof fn lemma_first_occurrence(s: Seq<char>, pat: Seq<char>, k: int)
    requires
        pat.len() > 0,
        occurs_at(s, pat, k),
        forall|j: int| 0 <= j < k ==> !occurs_at(s, pat, j),
    ensures
        spec_find(s, pat) == Some(k),
{
    lemma_find_from_spec(s, pat, 0);
    match spec_find(s, pat) {
        None => {
            assert(occurs_at(s, pat, k));
        },
        Some(i) => {
            assert(!(i < k));
            assert(!(k < i));
        },
    }
}

/// Splitting `a + pat + b` on `pat` at the seam: if no character of `a` is a
/// character of `pat`, the first occurrence of `pat` is right after `a`.
pub proof fn lemma_split_clean_prefix(a: Seq<char>, pat: Seq<char>, b: Seq<char>)
    requires
        pat.len() > 0,
        forall|i: int| 0 <= i < a.len() ==> !pat.contains(#[trigger] a[i]),
    ensures
        spec_split_once(a + pat + b, pat) == Some((a, b)),
{
    let s = a + pat + b;
    assert(s.subrange(a.len() as int, a.len() + pat.len() as int) =~= pat);
    assert(occurs_at(s, pat, a.len() as int));
    assert forall|j: int| 0 <= j < a.len() implies !occurs_at(s, pat, j) by {
        if occurs_at(s, pat, j) {
            assert(s.subrange(j, j + pat.len() as int)[0] == pat[0]);
            assert(s[j] == a[j]);
            assert(pat.contains(a[j]));
        }
    }
    lemma_first_occurrence(s, pat, a.len() as int);
    assert(s.subrange(0, a.len() as int) =~= a);
    assert(s.subrange(a.len() + pat.len() as int, s.len() as int) =~= b);
}

/// If no character of `s` is a character of `pat` (and `pat` is nonempty),
/// `pat` does not occur in `s` at all.
pub proof fn lemma_split_clean_none(s: Seq<char>, pat: Seq<char>)
    requires
        pat.len() > 0,
        forall|i: int| 0 <= i < s.len() ==> !pat.contains(#[trigger] s[i]),
    ensures
        spec_split_once(s, pat) is None,
        spec_split(s, pat) == seq![s],
{
    assert forall|j: int| !occurs_at(s, pat, j) by {
        if occurs_at(s, pat, j) {
            assert(s.subrange(j, j + pat.len() as int)[0] == pat[0]);
            assert(pat.contains(s[j]));
        }
    }
    lemma_find_none(s, pat);
}

/// True when the character sequences of `s` and `pat` agree on the window of
/// length `pat@.len()` that starts at `i` in `s`.
fn matches_at(s: &str, pat: &str, i: usize, n: usize, m: usize) -> (r: bool)
    requires
        n == s@.len(),
        m == pat@.len(),
        i + m <= n,
    ensures
        r <==> s@.subrange(i as int, i as int + m as int) == pat@,
{
    let mut j: usize = 0;
    while j < m
        invariant
            n == s@.len(),
            m == pat@.len(),
            i + m <= n,
            j <= m,
            forall|k: int| 0 <= k < j ==> s@[i + k] == pat@[k],
        decreases m - j,
    {
        if s.get_char(i + j) != pat.get_char(j) {
            proof {
                assert(s@.subrange(i as int, i as int + m as int)[j as int] != pat@[j as int]);
            }
            return false;
        }
        j += 1;
    }
    proof {
        assert(s@.subrange(i as int, i as int + m as int) =~= pat@);
    }
    true
}

/// First occurrence of `pat` in `s`, by character index.
pub fn find_sub(s: &str, pat: &str) -> (r: Option<usize>)
    ensures
        match r {
            Some(i) => spec_find(s@, pat@) == Some(i as int),
            None => spec_find(s@, pat@) is None,
        },
{
    let n = s.unicode_len();
    let m = pat.unicode_len();
    if m == 0 || m > n {
        return None;
    }
    let mut i: usize = 0;
    while i <= n - m
        invariant
            n == s@.len(),
            m == pat@.len(),
            1 <= m <= n,
            i <= n - m + 1,
            find_from(s@, pat@, 0) == find_from(s@, pat@, i as int),
        decreases n - i,
    {
        if matches_at(s, pat, i, n, m) {
            proof {
                assert(find_from(s@, pat@, i as int) == Some(i as int));
            }
            return Some(i);
        }
        proof {
            assert(find_from(s@, pat@, i as int) == find_from(s@, pat@, i + 1));
        }
        i += 1;
    }
    None
}

/// The parts of `s` before and after the first occurrence of `pat`, as
/// `str::split_once` returns them.
pub fn split_once_str<'a>(s: &'a str, pat: &str) -> (r: Option<(&'a str, &'a str)>)
    ensures
        match r {
            Some(p) => spec_split_once(s@, pat@) == Some((p.0@, p.1@)),
            None => spec_split_once(s@, pat@) is None,
        },
{
    let n = s.unicode_len();
    let m = pat.unicode_len();
    match find_sub(s, pat) {
        None => None,
        Some(i) => {
            proof {
                lemma_find_from_spec(s@, pat@, 0);
            }
            let a = s.substring_char(0, i);
            let b = s.substring_char(i + m, n);
            Some((a, b))
        },
    }
}

/// All the pieces of `s` between occurrences of `pat`, as `str::split`
/// yields them.
pub fn split_str<'a>(s: &'a str, pat: &str) -> (r: Vec<&'a str>)
    requires
        pat@.len() > 0,
    ensures
        r.deep_view() == spec_split(s@, pat@),
{
    let mut parts: Vec<&'a str> = Vec::new();
    let mut rest: &'a str = s;
    loop
        invariant
            pat@.len() > 0,
            spec_split(s@, pat@) == parts.deep_view() + spec_split(rest@, pat@),
        decreases rest@.len(),
    {
        match split_once_str(rest, pat) {
            Some((a, b)) => {
                proof {
                    lemma_find_from_spec(rest@, pat@, 0);
                    assert(spec_split(rest@, pat@) == seq![a@] + spec_split(b@, pat@));
                }
                let ghost old_parts = parts.deep_view();
                parts.push(a);
                proof {
                    assert(parts.deep_view() =~= old_parts.push(a@));
                    assert(old_parts + seq![a@] + spec_split(b@, pat@)
                        =~= old_parts.push(a@) + spec_split(b@, pat@));
                }
                rest = b;
            },
            None => {
                let ghost old_parts = parts.deep_view();
                parts.push(rest);
                proof {
                    assert(spec_split(rest@, pat@) == seq![rest@]);
                    assert(parts.deep_view() =~= old_parts.push(rest@));
                    assert(old_parts + seq![rest@] =~= old_parts.push(rest@));
                }
                return parts;
            },
        }
    }
}

/// Character-sequence equality of two string slices.
pub fn str_eq(a: &str, b: &str) -> (r: bool)
    ensures
        r <==> a@ == b@,
{
    let n = a.unicode_len();
    let m = b.unicode_len();
    if n != m {
        return false;
    }
    let mut j: usize = 0;
    while j < n
        invariant
            n == a@.len(),
            n == b@.len(),
            j <= n,
            forall|k: int| 0 <= k < j ==> a@[k] == b@[k],
        decreases n - j,
    {
        if a.get_char(j) != b.get_char(j) {
            return false;
        }
        j += 1;
    }
    proof {
        assert(a@ =~= b@);
    }
    true
}

} // verus!
