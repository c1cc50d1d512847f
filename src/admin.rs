//! The administrator's search panel: how closely a name matches a search
//! term.

use itertools::Itertools;
use vstd::prelude::*;

use crate::text::chars_of;

verus! {

/// What the administrator searches.
#[derive(Debug, Clone, Copy, PartialEq, Eq, Structural)]
pub enum AdminPageQueryType {
    User,
    Comment,
    Article,
}

/// A search of the administrator's panel.
pub struct AdminPageQuery {
    pub query_type: AdminPageQueryType,
    pub term: String,
}

/// How many results the panel shows.
pub const PANEL_RESULTS: usize = 10;

/// `s` in lowercase, as `str::to_lowercase` gives it.
pub uninterp spec fn lower_of(s: Seq<char>) -> Seq<char>;

/// Relies on `str::to_lowercase`: the result depends on the characters of
/// `s` alone.
#[verifier::external_body]
fn lowercase(s: &str) -> (r: String)
    ensures
        r@ == lower_of(s@),
{
    s.to_lowercase()
}

pub open spec fn min3(x: int, y: int, z: int) -> int {
    if x <= y && x <= z {
        x
    } else if y <= z {
        y
    } else {
        z
    }
}

/// The score of the first `i` characters of `a` against the first `j` of
/// `b`: `i` against nothing and nothing against `j` score their length;
/// otherwise the least of the two shorter prefixes plus one when their last
/// characters are equal, and each one-shorter prefix plus one.
pub open spec fn score(a: Seq<char>, b: Seq<char>, i: int, j: int) -> int
    decreases i + j,
{
    if i <= 0 {
        if j <= 0 { 0 } else { j }
    } else if j <= 0 {
        i
    } else {
        min3(
            (if a[i - 1] == b[j - 1] { 1int } else { 0int }) + score(a, b, i - 1, j - 1),
            score(a, b, i - 1, j) + 1,
            score(a, b, i, j - 1) + 1,
        )
    }
}

/// How closely `a` and `b` match, as the panel ranks them.
pub open spec fn similarity(a: Seq<char>, b: Seq<char>) -> int {
    score(a, b, a.len() as int, b.len() as int)
}

proof fn lemma_score_bounds(a: Seq<char>, b: Seq<char>, i: int, j: int)
    requires
        0 <= i,
        0 <= j,
    ensures
        0 <= score(a, b, i, j) <= if i < j { j } else { i },
    decreases i + j,
{
    if i > 0 && j > 0 {
        lemma_score_bounds(a, b, i - 1, j - 1);
        lemma_score_bounds(a, b, i - 1, j);
        lemma_score_bounds(a, b, i, j - 1);
    }
}

/// The score of `a` against `b`, compared as they are.
pub fn raw_similarity(a: &str, b: &str) -> (r: usize)
    ensures
        r == similarity(a@, b@),
{
    let x = chars_of(a);
    let y = chars_of(b);
    let n = x.len();
    let m = y.len();
    let mut prev: Vec<usize> = Vec::new();
    let mut j: usize = 0;
    loop
        invariant_except_break
            j <= m,
            prev.len() == j,
            forall|k: int| 0 <= k < j ==> prev@[k] == score(x@, y@, 0, k),
        ensures
            prev.len() == m + 1,
            forall|k: int| 0 <= k <= m ==> prev@[k] == score(x@, y@, 0, k),
        decreases m - j,
    {
        prev.push(j);
        if j == m {
            break;
        }
        j = j + 1;
    }
    if n == 0 {
        return prev[m];
    }
    let mut i: usize = 1;
    loop
        invariant_except_break
            1 <= i <= n,
            n == x.len(),
            m == y.len(),
            prev.len() == m + 1,
            forall|k: int| 0 <= k <= m ==> prev@[k] == score(x@, y@, i - 1, k),
        ensures
            prev.len() == m + 1,
            forall|k: int| 0 <= k <= m ==> prev@[k] == score(x@, y@, n as int, k),
        decreases n - i,
    {
        let mut cur: Vec<usize> = Vec::new();
        cur.push(i);
        let mut j: usize = 1;
        while j <= m
            invariant
                1 <= i <= n,
                1 <= j <= m + 1,
                n == x.len(),
                m == y.len(),
                prev.len() == m + 1,
                cur.len() == j,
                forall|k: int| 0 <= k <= m ==> prev@[k] == score(x@, y@, i - 1, k),
                forall|k: int| 0 <= k < j ==> cur@[k] == score(x@, y@, i as int, k),
            decreases m + 1 - j,
        {
            proof {
                lemma_score_bounds(x@, y@, i - 1, j - 1);
                lemma_score_bounds(x@, y@, i - 1, j as int);
                lemma_score_bounds(x@, y@, i as int, j - 1);
                lemma_score_bounds(x@, y@, i as int, j as int);
            }
            let same: u128 = if x[i - 1] == y[j - 1] { 1 } else { 0 };
            let diag: u128 = same + prev[j - 1] as u128;
            let up: u128 = prev[j] as u128 + 1;
            let left: u128 = cur[j - 1] as u128 + 1;
            let best: u128 = if diag <= up && diag <= left {
                diag
            } else if up <= left {
                up
            } else {
                left
            };
            cur.push(best as usize);
            j = j + 1;
        }
        prev = cur;
        if i == n {
            break;
        }
        i = i + 1;
    }
    prev[m]
}

/// The score of `a` against `b`, both taken in lowercase.
pub fn compute_similarity(a: &str, b: &str) -> (r: usize)
    ensures
        r == similarity(lower_of(a@), lower_of(b@)),
{
    let a = lowercase(a);
    let b = lowercase(b);
    raw_similarity(a.as_str(), b.as_str())
}

/// Each score paired with its position.
pub open spec fn scored(scores: Seq<usize>) -> Seq<(usize, usize)> {
    Seq::new(scores.len(), |i: int| (scores[i], i as usize))
}

/// Highest score first; among equal scores, lowest position first.
pub open spec fn ordered(p: Seq<(usize, usize)>) -> bool {
    forall|a: int, b: int|
        0 <= a < b < p.len() ==> p[a].0 > p[b].0 || (p[a].0 == p[b].0 && p[a].1 < p[b].1)
}

/// `p` is the pairs of `scores` in ranking order.
pub open spec fn ranked(p: Seq<(usize, usize)>, scores: Seq<usize>) -> bool {
    p.to_multiset() == scored(scores).to_multiset() && ordered(p)
}

/// How many results the panel shows out of `n`.
pub open spec fn shown(n: int) -> int {
    if n < PANEL_RESULTS {
        n
    } else {
        PANEL_RESULTS as int
    }
}

/// Relies on `itertools::Itertools::sorted_by_key`, a stable sort, keyed on
/// the score reversed: the same pairs, highest score first, and pairs of
/// equal score in the order they came in, which is increasing position when
/// the positions come in increasing.
#[verifier::external_body]
fn sort_by_score(pairs: Vec<(usize, usize)>) -> (r: Vec<(usize, usize)>)
    requires
        forall|a: int, b: int| 0 <= a < b < pairs.len() ==> pairs@[a].1 < pairs@[b].1,
    ensures
        r@.to_multiset() == pairs@.to_multiset(),
        ordered(r@),
{
    pairs.into_iter().sorted_by_key(|p| std::cmp::Reverse(p.0)).collect()
}

/// The positions of the best scores, best first, as many as the panel
/// shows; equal scores keep their order.
pub fn top_ranked(scores: &Vec<usize>) -> (r: Vec<usize>)
    ensures
        r.len() == shown(scores.len() as int),
        exists|p: Seq<(usize, usize)>|
            #[trigger] ranked(p, scores@) && r@ == p.take(shown(scores.len() as int)).map_values(
                |x: (usize, usize)| x.1,
            ),
{
    let mut pairs: Vec<(usize, usize)> = Vec::new();
    let mut i: usize = 0;
    while i < scores.len()
        invariant
            i <= scores.len(),
            pairs@ == scored(scores@).take(i as int),
        decreases scores.len() - i,
    {
        pairs.push((scores[i], i));
        i = i + 1;
        assert(pairs@ =~= scored(scores@).take(i as int));
    }
    assert(pairs@ =~= scored(scores@));
    let ghost before = pairs@;
    let sorted = sort_by_score(pairs);
    proof {
        vstd::seq_lib::to_multiset_len(before);
        vstd::seq_lib::to_multiset_len(sorted@);
    }
    let k: usize = if sorted.len() < PANEL_RESULTS {
        sorted.len()
    } else {
        PANEL_RESULTS
    };
    let mut r: Vec<usize> = Vec::new();
    let mut j: usize = 0;
    while j < k
        invariant
            j <= k <= sorted.len(),
            r@ == sorted@.take(j as int).map_values(|x: (usize, usize)| x.1),
        decreases k - j,
    {
        r.push(sorted[j].1);
        j = j + 1;
        assert(r@ =~= sorted@.take(j as int).map_values(|x: (usize, usize)| x.1));
    }
    assert(ranked(sorted@, scores@));
    r
}

/// The score of each name against `term`, both in lowercase.
pub open spec fn name_scores(names: Seq<String>, term: Seq<char>) -> Seq<usize> {
    Seq::new(names.len(), |i: int| similarity(lower_of(names[i]@), lower_of(term)) as usize)
}

/// The positions of the names that best match `term`, best first, as many
/// as the panel shows.
pub fn rank_by_similarity(names: &Vec<String>, term: &str) -> (r: Vec<usize>)
    ensures
        r.len() == shown(names.len() as int),
        exists|p: Seq<(usize, usize)>|
            #[trigger] ranked(p, name_scores(names@, term@)) && r@ == p.take(shown(names.len() as int)).map_values(|x: (usize, usize)| x.1),
{
    let mut scores: Vec<usize> = Vec::new();
    let mut i: usize = 0;
    while i < names.len()
        invariant
            i <= names.len(),
            scores.len() == i,
            forall|j: int|
                0 <= j < i ==> scores@[j] == similarity(lower_of(names@[j]@), lower_of(term@)),
        decreases names.len() - i,
    {
        scores.push(compute_similarity(names[i].as_str(), term));
        i = i + 1;
    }
    assert(scores@ =~= name_scores(names@, term@));
    top_ranked(&scores)
}

} // verus!
