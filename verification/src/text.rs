//! Substring search and substitution over character sequences.

use vstd::prelude::*;
use vstd::string::*;

verus! {

/// `pat` stands in `s` at character position `at`.
pub open spec fn occurs_at(s: Seq<char>, pat: Seq<char>, at: int) -> bool {
    &&& 0 <= at
    &&& at + pat.len() <= s.len()
    &&& s.subrange(at, at + pat.len()) == pat
}

/// `pat` stands somewhere in `s`.
pub open spec fn contains(s: Seq<char>, pat: Seq<char>) -> bool {
    exists|k: int| occurs_at(s, pat, k)
}

/// The least position at or after `from` where `pat` stands in `s`, if any.
pub open spec fn first_occurrence(s: Seq<char>, pat: Seq<char>, from: int) -> Option<int>
    decreases s.len() - from,
{
    if from < 0 || from + pat.len() > s.len() {
        None
    } else if occurs_at(s, pat, from) {
        Some(from)
    } else if from >= s.len() {
        None
    } else {
        first_occurrence(s, pat, from + 1)
    }
}

/// `s` with every occurrence of `pat` replaced by `with`, scanning from the
/// left and never re-reading replaced text. An empty `pat` changes nothing.
pub open spec fn replace_all(s: Seq<char>, pat: Seq<char>, with: Seq<char>) -> Seq<char>
    decreases s.len(),
{
    if pat.len() == 0 || s.len() < pat.len() {
        s
    } else if occurs_at(s, pat, 0) {
        with + replace_all(s.skip(pat.len() as int), pat, with)
    } else {
        seq![s[0]] + replace_all(s.skip(1), pat, with)
    }
}

/// What `first_occurrence` returns is an occurrence, and the least one.
pub proof fn lemma_first_occurrence_least(s: Seq<char>, pat: Seq<char>, from: int)
    requires
        0 <= from,
    ensures
        match first_occurrence(s, pat, from) {
            Some(at) => from <= at && occurs_at(s, pat, at) && forall|k: int|
                from <= k < at ==> !occurs_at(s, pat, k),
            None => forall|k: int| from <= k ==> !occurs_at(s, pat, k),
        },
    decreases s.len() - from,
{
    if from + pat.len() > s.len() {
    } else if occurs_at(s, pat, from) {
    } else if from >= s.len() {
        assert(s.subrange(from, from + pat.len()) =~= pat);
    } else {
        lemma_first_occurrence_least(s, pat, from + 1);
    }
}

/// The least occurrence at or after `from` is what `first_occurrence` returns.
pub proof fn lemma_first_occurrence_unique(s: Seq<char>, pat: Seq<char>, from: int, at: int)
    requires
        0 <= from <= at,
        occurs_at(s, pat, at),
        forall|k: int| from <= k < at ==> !occurs_at(s, pat, k),
    ensures
        first_occurrence(s, pat, from) == Some(at),
    decreases at - from,
{
    if from < at {
        lemma_first_occurrence_unique(s, pat, from + 1, at);
    }
}

/// An occurrence inside a prefix of `s` is an occurrence in `s` that ends
/// within the prefix, and the other way round.
pub proof fn lemma_occurs_in_prefix(s: Seq<char>, n: int, pat: Seq<char>, k: int)
    requires
        0 <= n <= s.len(),
    ensures
        occurs_at(s.subrange(0, n), pat, k) <==> (occurs_at(s, pat, k) && k + pat.len() <= n),
{
    if 0 <= k && k + pat.len() <= n {
        assert(s.subrange(0, n).subrange(k, k + pat.len()) =~= s.subrange(k, k + pat.len()));
    }
}

/// `u` stands at the start of `s`.
pub open spec fn is_prefix(u: Seq<char>, s: Seq<char>) -> bool {
    u.len() <= s.len() && s.subrange(0, u.len() as int) == u
}

/// `with` is not empty and cannot share characters with an occurrence of
/// `pat` that it does not hold whole: neither stands inside the other, no
/// end of `pat` is a start of `with`, and no end of `with` is a start of
/// `pat`.
pub open spec fn overlap_free(with: Seq<char>, pat: Seq<char>) -> bool {
    &&& with.len() > 0
    &&& !contains(with, pat)
    &&& !contains(pat, with)
    &&& forall|n: int| 0 <= n < pat.len() ==> !is_prefix(#[trigger] pat.skip(n), with)
    &&& forall|n: int| 0 <= n < with.len() ==> !is_prefix(#[trigger] with.skip(n), pat)
}

/// Where the replacement is overlap-free, a text whose substituted form
/// begins with an end of the pattern begins with that end itself.
pub proof fn lemma_replaced_prefix(s: Seq<char>, pat: Seq<char>, with: Seq<char>, n: int)
    requires
        overlap_free(with, pat),
        0 <= n <= pat.len(),
        is_prefix(pat.skip(n), replace_all(s, pat, with)),
    ensures
        is_prefix(pat.skip(n), s),
    decreases pat.len() - n,
{
    let r = replace_all(s, pat, with);
    let u = pat.skip(n);
    if n == pat.len() {
        assert(s.subrange(0, 0) =~= u);
    } else if s.len() < pat.len() {
    } else if occurs_at(s, pat, 0) {
        if u.len() <= with.len() {
            assert(with.subrange(0, u.len() as int) =~= r.subrange(0, u.len() as int));
            assert(is_prefix(pat.skip(n), with));
        } else {
            assert(pat.subrange(n, n + with.len()) =~= with) by {
                assert forall|i: int| 0 <= i < with.len() implies pat[n + i] == with[i] by {
                    assert(r.subrange(0, u.len() as int)[i] == u[i]);
                }
            }
            assert(occurs_at(pat, with, n));
        }
    } else {
        let tail = replace_all(s.skip(1), pat, with);
        assert(r.subrange(0, u.len() as int)[0] == u[0]);
        assert(tail.subrange(0, u.len() - 1) =~= pat.skip(n + 1)) by {
            assert forall|i: int| 0 <= i < u.len() - 1 implies tail[i] == pat[n + 1 + i] by {
                assert(r.subrange(0, u.len() as int)[i + 1] == u[i + 1]);
            }
        }
        lemma_replaced_prefix(s.skip(1), pat, with, n + 1);
        assert(s.subrange(0, u.len() as int) =~= u) by {
            assert forall|i: int| 0 <= i < u.len() implies s[i] == u[i] by {
                if i > 0 {
                    assert(s.skip(1).subrange(0, u.len() - 1)[i - 1] == pat.skip(n + 1)[i - 1]);
                }
            }
        }
    }
}

/// Where the replacement is overlap-free, the substituted text holds the
/// pattern nowhere.
pub proof fn lemma_replace_all_removes(s: Seq<char>, pat: Seq<char>, with: Seq<char>, k: int)
    requires
        pat.len() > 0,
        overlap_free(with, pat),
    ensures
        !occurs_at(replace_all(s, pat, with), pat, k),
    decreases s.len(),
{
    let r = replace_all(s, pat, with);
    let m = pat.len() as int;
    let w = with.len() as int;
    if occurs_at(r, pat, k) {
        if s.len() < pat.len() {
        } else if occurs_at(s, pat, 0) {
            let tail = replace_all(s.skip(m), pat, with);
            if k >= w {
                assert(tail.subrange(k - w, k - w + m) =~= r.subrange(k, k + m));
                lemma_replace_all_removes(s.skip(m), pat, with, k - w);
            } else if k + m <= w {
                assert(with.subrange(k, k + m) =~= r.subrange(k, k + m));
                assert(occurs_at(with, pat, k));
            } else {
                assert(pat.subrange(0, w - k) =~= with.skip(k)) by {
                    assert forall|i: int| 0 <= i < w - k implies pat[i] == with[k + i] by {
                        assert(r.subrange(k, k + m)[i] == pat[i]);
                    }
                }
                assert(is_prefix(with.skip(k), pat));
            }
        } else {
            let tail = replace_all(s.skip(1), pat, with);
            if k == 0 {
                assert(pat.skip(0) =~= pat);
                lemma_replaced_prefix(s, pat, with, 0);
            } else {
                assert(tail.subrange(k - 1, k - 1 + m) =~= r.subrange(k, k + m));
                lemma_replace_all_removes(s.skip(1), pat, with, k - 1);
            }
        }
    }
}

/// A text that holds no occurrence of the pattern is left as it is.
pub proof fn lemma_replace_all_without_pattern(s: Seq<char>, pat: Seq<char>, with: Seq<char>)
    requires
        !contains(s, pat),
    ensures
        replace_all(s, pat, with) == s,
    decreases s.len(),
{
    if pat.len() == 0 || s.len() < pat.len() {
    } else {
        assert(!occurs_at(s, pat, 0));
        assert forall|k: int| !occurs_at(s.skip(1), pat, k) by {
            if 0 <= k && k + pat.len() <= s.len() - 1 {
                assert(s.skip(1).subrange(k, k + pat.len()) =~= s.subrange(k + 1, k + 1 + pat.len()));
                assert(!occurs_at(s, pat, k + 1));
            }
        }
        lemma_replace_all_without_pattern(s.skip(1), pat, with);
        assert(seq![s[0]] + s.skip(1) =~= s);
    }
}

/// Replacing the pattern by itself changes nothing.
pub proof fn lemma_replace_all_with_itself(s: Seq<char>, pat: Seq<char>)
    ensures
        replace_all(s, pat, pat) == s,
    decreases s.len(),
{
    if pat.len() == 0 || s.len() < pat.len() {
    } else if occurs_at(s, pat, 0) {
        lemma_replace_all_with_itself(s.skip(pat.len() as int), pat);
        assert(pat + s.skip(pat.len() as int) =~= s) by {
            assert forall|i: int| 0 <= i < pat.len() implies s[i] == pat[i] by {
                assert(s.subrange(0, pat.len() as int)[i] == pat[i]);
            }
        }
    } else {
        lemma_replace_all_with_itself(s.skip(1), pat);
        assert(seq![s[0]] + s.skip(1) =~= s);
    }
}

/// Whether `pat` stands in `s` at position `at`.
pub fn matches_at(s: &str, pat: &str, at: usize) -> (hit: bool)
    ensures
        hit == occurs_at(s@, pat@, at as int),
{
    let n: usize = s.unicode_len();
    let m: usize = pat.unicode_len();
    if at > n || m > n - at {
        return false;
    }
    let mut j: usize = 0;
    while j < m
        invariant
            j <= m,
            m == pat@.len(),
            n == s@.len(),
            at + m <= n,
            forall|t: int| 0 <= t < j ==> s@[at + t] == pat@[t],
        decreases m - j,
    {
        if s.get_char(at + j) != pat.get_char(j) {
            assert(s@.subrange(at as int, at + m)[j as int] != pat@[j as int]);
            return false;
        }
        j += 1;
    }
    assert(s@.subrange(at as int, at + m) =~= pat@);
    true
}

/// The first position at or after `from` where `pat` stands in `s`.
pub fn find_from(s: &str, pat: &str, from: usize) -> (found: Option<usize>)
    ensures
        match found {
            Some(at) => first_occurrence(s@, pat@, from as int) == Some(at as int) && at
                + pat@.len() <= s@.len() <= usize::MAX,
            None => first_occurrence(s@, pat@, from as int) is None,
        },
{
    let n: usize = s.unicode_len();
    let m: usize = pat.unicode_len();
    if from > n || m > n - from {
        return None;
    }
    if m == 0 {
        assert(s@.subrange(from as int, from + m) =~= pat@);
        return Some(from);
    }
    let last: usize = n - m;
    let mut i: usize = from;
    while i <= last
        invariant
            from <= i <= last + 1,
            last == n - m,
            0 < m == pat@.len(),
            n == s@.len(),
            forall|k: int| from <= k < i ==> !occurs_at(s@, pat@, k),
        decreases last + 1 - i,
    {
        if matches_at(s, pat, i) {
            proof {
                lemma_first_occurrence_unique(s@, pat@, from as int, i as int);
            }
            return Some(i);
        }
        i += 1;
    }
    proof {
        lemma_first_occurrence_least(s@, pat@, from as int);
    }
    None
}

/// `s` with every occurrence of `pat` replaced by `with`.
pub fn replace_every(s: &str, pat: &str, with: &str) -> (out: String)
    ensures
        out@ == replace_all(s@, pat@, with@),
{
    let n: usize = s.unicode_len();
    let m: usize = pat.unicode_len();
    if m == 0 || n < m {
        return String::from_str(s);
    }
    let mut out = String::new();
    let mut i: usize = 0;
    assert(s@.skip(0) =~= s@);
    assert(out@ + s@ =~= s@);
    while i < n
        invariant
            i <= n,
            0 < m <= n,
            m == pat@.len(),
            n == s@.len(),
            out@ + replace_all(s@.skip(i as int), pat@, with@) == replace_all(s@, pat@, with@),
        decreases n - i,
    {
        let ghost rest = s@.skip(i as int);
        let ghost before = out@;
        if n - i < m {
            out.append(s.substring_char(i, n));
            assert(s@.subrange(i as int, n as int) =~= rest);
            i = n;
            assert(s@.skip(n as int) =~= Seq::<char>::empty());
            assert(out@ + Seq::<char>::empty() =~= out@);
        } else if matches_at(s, pat, i) {
            assert(rest.subrange(0, m as int) =~= s@.subrange(i as int, i + m));
            out.append(with);
            assert(rest.skip(m as int) =~= s@.skip(i + m));
            assert(out@ + replace_all(s@.skip(i + m), pat@, with@) =~= before + (with@
                + replace_all(s@.skip(i + m), pat@, with@)));
            i += m;
        } else {
            assert(rest.subrange(0, m as int) =~= s@.subrange(i as int, i + m));
            out.append(s.substring_char(i, i + 1));
            assert(s@.subrange(i as int, i + 1) =~= seq![rest[0]]);
            assert(rest.skip(1) =~= s@.skip(i + 1));
            assert(out@ + replace_all(s@.skip(i + 1), pat@, with@) =~= before + (seq![rest[0]]
                + replace_all(s@.skip(i + 1), pat@, with@)));
            i += 1;
        }
    }
    assert(s@.skip(n as int) =~= Seq::<char>::empty());
    assert(out@ + Seq::<char>::empty() =~= out@);
    out
}

} // verus!
