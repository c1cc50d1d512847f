//! Searching and splicing character sequences: the primitives that the
//! template engine is built from, each with its mathematical meaning.

use vstd::prelude::*;

verus! {

/// The first position at or after `from` where `pat` occurs in `s`.
pub open spec fn find(s: Seq<char>, pat: Seq<char>, from: int) -> Option<int>
    decreases s.len() + 1 - from,
{
    if from < 0 || from + pat.len() > s.len() {
        None
    } else if s.subrange(from, from + pat.len()) == pat {
        Some(from)
    } else {
        find(s, pat, from + 1)
    }
}

/// Every occurrence of `pat` replaced by `rep`, scanning from the left and
/// never looking again at what was put in.
pub open spec fn replace_all(s: Seq<char>, pat: Seq<char>, rep: Seq<char>) -> Seq<char>
    decreases s.len(),
{
    if pat.len() == 0 || s.len() < pat.len() {
        s
    } else if s.subrange(0, pat.len() as int) == pat {
        rep + replace_all(s.subrange(pat.len() as int, s.len() as int), pat, rep)
    } else {
        seq![s[0]] + replace_all(s.subrange(1, s.len() as int), pat, rep)
    }
}

/// The first occurrence of `pat` replaced by `rep`; `s` itself when there is
/// none.
pub open spec fn replace_first(s: Seq<char>, pat: Seq<char>, rep: Seq<char>) -> Seq<char> {
    match find(s, pat, 0) {
        Some(i) => s.subrange(0, i) + rep + s.subrange(i + pat.len(), s.len() as int),
        None => s,
    }
}

/// A position that `find` reports lies in range and starts a match.
pub proof fn lemma_find_some(s: Seq<char>, pat: Seq<char>, from: int)
    requires
        find(s, pat, from) is Some,
    ensures
        from <= find(s, pat, from)->0,
        find(s, pat, from)->0 + pat.len() <= s.len(),
        s.subrange(find(s, pat, from)->0, find(s, pat, from)->0 + pat.len()) == pat,
    decreases s.len() + 1 - from,
{
    if from < 0 || from + pat.len() > s.len() {
    } else if s.subrange(from, from + pat.len()) == pat {
    } else {
        lemma_find_some(s, pat, from + 1);
    }
}

/// Whether `pat` occurs in `s` starting at position `i`.
pub fn matches_at(s: &Vec<char>, i: usize, pat: &Vec<char>) -> (r: bool)
    requires
        i <= s.len(),
    ensures
        r == (i + pat.len() <= s.len() && s@.subrange(i as int, i + pat.len()) == pat@),
{
    if pat.len() > s.len() - i {
        return false;
    }
    let mut k: usize = 0;
    while k < pat.len()
        invariant
            k <= pat.len(),
            i + pat.len() <= s.len(),
            forall|j: int| 0 <= j < k ==> s@[i + j] == pat@[j],
        decreases pat.len() - k,
    {
        if s[i + k] != pat[k] {
            assert(s@.subrange(i as int, i + pat.len())[k as int] != pat@[k as int]);
            return false;
        }
        k = k + 1;
    }
    assert(s@.subrange(i as int, i + pat.len()) =~= pat@);
    true
}

/// The first position at or after `from` where `pat` occurs in `s`.
pub fn find_from(s: &Vec<char>, pat: &Vec<char>, from: usize) -> (r: Option<usize>)
    requires
        from <= s.len(),
    ensures
        match r {
            Some(j) => find(s@, pat@, from as int) == Some(j as int) && from <= j && j + pat.len()
                <= s.len(),
            None => find(s@, pat@, from as int) is None,
        },
{
    let mut j: usize = from;
    while j < s.len() && pat.len() <= s.len() - j
        invariant
            from <= j <= s.len(),
            find(s@, pat@, from as int) == find(s@, pat@, j as int),
        decreases s.len() - j,
    {
        if matches_at(s, j, pat) {
            return Some(j);
        }
        j = j + 1;
    }
    if pat.len() == 0 {
        assert(s@.subrange(j as int, j as int) =~= pat@);
        return Some(j);
    }
    None
}

/// Appends `s[from..to]` to `out`.
pub fn push_range(out: &mut Vec<char>, s: &Vec<char>, from: usize, to: usize)
    requires
        from <= to <= s.len(),
    ensures
        final(out)@ == old(out)@ + s@.subrange(from as int, to as int),
{
    let mut k: usize = from;
    while k < to
        invariant
            from <= k <= to <= s.len(),
            out@ == old(out)@ + s@.subrange(from as int, k as int),
        decreases to - k,
    {
        out.push(s[k]);
        k = k + 1;
        assert(out@ =~= old(out)@ + s@.subrange(from as int, k as int));
    }
}

/// `s` with every occurrence of `pat` replaced by `rep`.
pub fn replace_all_chars(s: &Vec<char>, pat: &Vec<char>, rep: &Vec<char>) -> (r: Vec<char>)
    ensures
        r@ == replace_all(s@, pat@, rep@),
{
    let n = s.len();
    let mut out: Vec<char> = Vec::new();
    let mut i: usize = 0;
    assert(s@.subrange(0, n as int) =~= s@);
    while i < n
        invariant
            n == s.len(),
            i <= n,
            out@ + replace_all(s@.subrange(i as int, n as int), pat@, rep@) == replace_all(s@, pat@, rep@),
        decreases n - i,
    {
        let ghost suf = s@.subrange(i as int, n as int);
        if pat.len() > 0 && matches_at(s, i, pat) {
            assert(suf.subrange(0, pat.len() as int) =~= s@.subrange(i as int, i + pat.len()));
            assert(suf.subrange(pat.len() as int, suf.len() as int) =~= s@.subrange(i + pat.len(), n as int));
            push_range(&mut out, rep, 0, rep.len());
            assert(rep@.subrange(0, rep.len() as int) =~= rep@);
            i = i + pat.len();
            assert(out@ + replace_all(s@.subrange(i as int, n as int), pat@, rep@) =~= replace_all(s@, pat@, rep@));
        } else {
            let ghost rest = s@.subrange(i + 1, n as int);
            assert(suf.subrange(1, suf.len() as int) =~= rest);
            if pat.len() > 0 && n - i >= pat.len() {
                assert(suf.subrange(0, pat.len() as int) =~= s@.subrange(i as int, i + pat.len()));
            } else {
                assert(replace_all(rest, pat@, rep@) == rest);
                assert(suf =~= seq![s@[i as int]] + rest);
            }
            out.push(s[i]);
            i = i + 1;
            assert(out@ + replace_all(s@.subrange(i as int, n as int), pat@, rep@) =~= replace_all(s@, pat@, rep@));
        }
    }
    assert(s@.subrange(n as int, n as int) =~= Seq::<char>::empty());
    assert(out@ + Seq::<char>::empty() =~= out@);
    out
}

/// `s` with the first occurrence of `pat` replaced by `rep`.
pub fn replace_first_chars(s: &Vec<char>, pat: &Vec<char>, rep: &Vec<char>) -> (r: Vec<char>)
    ensures
        r@ == replace_first(s@, pat@, rep@),
{
    match find_from(s, pat, 0) {
        Some(i) => {
            let mut out: Vec<char> = Vec::new();
            push_range(&mut out, s, 0, i);
            push_range(&mut out, rep, 0, rep.len());
            push_range(&mut out, s, i + pat.len(), s.len());
            assert(rep@.subrange(0, rep.len() as int) =~= rep@);
            assert(out@ =~= replace_first(s@, pat@, rep@));
            out
        },
        None => {
            let mut out: Vec<char> = Vec::new();
            push_range(&mut out, s, 0, s.len());
            assert(out@ =~= s@);
            out
        },
    }
}

} // verus!
