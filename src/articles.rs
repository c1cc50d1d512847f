//! Articles as the site shows them. Storing them is left to the caller.

use vstd::prelude::*;

use crate::clock::{current_millis, fresh_token};
use crate::text::{chars_of, push_char};

verus! {

/// Where an article stands in review.
#[derive(Debug, Clone, Copy, PartialEq, Eq, Structural)]
pub enum Status {
    Published,
    NeedsReview,
}

/// An article.
pub struct Article {
    pub title: String,
    pub content: String,
    /// The author's username.
    pub author: String,
    /// When it was written, in milliseconds since the epoch.
    pub created_at: i64,
    /// When it was last saved, in milliseconds since the epoch.
    pub updated_at: i64,
    /// Its identifier, in hyphenated form.
    pub uuid: String,
    pub status: Status,
}

/// What the publishing form holds.
pub struct PublishForm {
    pub title: String,
    pub content: String,
}

/// How many characters of an article its description is cut from.
pub const DESCRIPTION_CHARS: usize = 100;

/// The characters of `s` outside markup tags. A tag runs from a `<` to the
/// next `>`, or to the end when there is none; `in_tag` says whether `s`
/// starts inside one.
pub open spec fn strip_tags(s: Seq<char>, in_tag: bool) -> Seq<char>
    decreases s.len(),
{
    if s.len() == 0 {
        Seq::empty()
    } else if in_tag {
        strip_tags(s.drop_first(), s[0] != '>')
    } else if s[0] == '<' {
        strip_tags(s.drop_first(), true)
    } else {
        seq![s[0]] + strip_tags(s.drop_first(), false)
    }
}

/// The short description of an article whose text is `s`: its first hundred
/// characters without markup, then an ellipsis.
pub open spec fn description(s: Seq<char>) -> Seq<char> {
    strip_tags(s.take(if s.len() < DESCRIPTION_CHARS { s.len() as int } else { DESCRIPTION_CHARS as int }), false)
        + seq!['.', '.', '.']
}

impl Article {
    /// The short description of an article whose text is `s`.
    pub fn format_for_description(s: &str) -> (r: String)
        ensures
            r@ == description(s@),
    {
        let chars = chars_of(s);
        let n: usize = if chars.len() < DESCRIPTION_CHARS { chars.len() } else { DESCRIPTION_CHARS };
        let ghost head = s@.take(n as int);
        let mut out = String::new();
        let mut in_tag = false;
        let mut i: usize = 0;
        assert(head.subrange(0, n as int) =~= head);
        while i < n
            invariant
                n <= chars.len(),
                chars@ == s@,
                head == s@.take(n as int),
                i <= n,
                out@ + strip_tags(head.subrange(i as int, n as int), in_tag) == strip_tags(head, false),
            decreases n - i,
        {
            let c = chars[i];
            let ghost rest = head.subrange(i as int, n as int);
            assert(rest.drop_first() =~= head.subrange(i + 1, n as int));
            assert(rest[0] == c);
            if in_tag {
                in_tag = c != '>';
            } else if c == '<' {
                in_tag = true;
            } else {
                push_char(&mut out, c);
                assert(out@ + strip_tags(head.subrange(i + 1, n as int), false) =~= strip_tags(head, false));
            }
            i = i + 1;
        }
        assert(head.subrange(n as int, n as int) =~= Seq::<char>::empty());
        assert(out@ + Seq::<char>::empty() =~= out@);
        push_char(&mut out, '.');
        push_char(&mut out, '.');
        push_char(&mut out, '.');
        assert(out@ =~= description(s@));
        out
    }

    /// A new article by `author`, awaiting review, written now under a fresh
    /// identifier.
    pub fn create_new(title: String, content: String, author: String) -> (r: Article)
        ensures
            r.title == title,
            r.content == content,
            r.author == author,
            r.created_at == r.updated_at,
            r.uuid@.len() == 36,
            r.status == Status::NeedsReview,
    {
        let now = current_millis();
        Article { title, content, author, created_at: now, updated_at: now, uuid: fresh_token(), status: Status::NeedsReview }
    }

    /// Whether readers may see the article.
    pub fn is_published(&self) -> (r: bool)
        ensures
            r == (self.status == Status::Published),
    {
        self.status == Status::Published
    }
}

/// Whether a list restricted to `author` and to `status`, each when given,
/// shows `a`.
pub open spec fn listed(a: Article, author: Option<Seq<char>>, status: Option<Status>) -> bool {
    &&& author matches Some(name) ==> a.author@ == name
    &&& status matches Some(st) ==> a.status == st
}

/// Each article's creation time paired with its position.
pub open spec fn dated(articles: Seq<Article>) -> Seq<(i64, usize)> {
    Seq::new(articles.len(), |i: int| (articles[i].created_at, i as usize))
}

/// Holds of the pair of an article that the list shows.
pub open spec fn shows(articles: Seq<Article>, author: Option<Seq<char>>, status: Option<Status>) -> spec_fn(
    (i64, usize),
) -> bool {
    |p: (i64, usize)| listed(articles[p.1 as int], author, status)
}

/// The pairs of the articles that the list shows, in their stored order.
pub open spec fn listing(articles: Seq<Article>, author: Option<Seq<char>>, status: Option<Status>) -> Seq<
    (i64, usize),
> {
    dated(articles).filter(shows(articles, author, status))
}

/// Newest first; among equal times, lowest position first.
pub open spec fn newest_first(p: Seq<(i64, usize)>) -> bool {
    forall|a: int, b: int|
        0 <= a < b < p.len() ==> p[a].0 > p[b].0 || (p[a].0 == p[b].0 && p[a].1 < p[b].1)
}

pub open spec fn author_view(author: Option<&str>) -> Option<Seq<char>> {
    match author {
        Some(a) => Some(a@),
        None => None,
    }
}

/// Relies on `slice::sort_by_key`, a stable sort, keyed on the time
/// reversed: the same pairs, newest first, and pairs of equal time in the
/// order they came in, which is increasing position when the positions come
/// in increasing.
#[verifier::external_body]
fn sort_newest_first(pairs: Vec<(i64, usize)>) -> (r: Vec<(i64, usize)>)
    requires
        forall|a: int, b: int| 0 <= a < b < pairs.len() ==> pairs@[a].1 < pairs@[b].1,
    ensures
        r@.to_multiset() == pairs@.to_multiset(),
        newest_first(r@),
{
    let mut v = pairs;
    v.sort_by_key(|p| std::cmp::Reverse(p.0));
    v
}

/// The positions of the articles by `author` and in `status`, each when
/// given, newest first.
pub fn list_articles(articles: &Vec<Article>, author: Option<&str>, status: Option<Status>) -> (r: Vec<usize>)
    ensures
        exists|p: Seq<(i64, usize)>|
            p.to_multiset() == #[trigger] listing(articles@, author_view(author), status).to_multiset()
                && newest_first(p) && r@ == p.map_values(|x: (i64, usize)| x.1),
{
    let ghost pred = shows(articles@, author_view(author), status);
    let key: Option<String> = match author {
        Some(a) => Some(a.to_owned()),
        None => None,
    };
    let mut pairs: Vec<(i64, usize)> = Vec::new();
    let mut i: usize = 0;
    while i < articles.len()
        invariant
            i <= articles.len(),
            pred == shows(articles@, author_view(author), status),
            match key {
                Some(k) => author_view(author) == Some(k@),
                None => author_view(author) is None,
            },
            pairs@ == dated(articles@).take(i as int).filter(pred),
            forall|a: int, b: int| 0 <= a < b < pairs.len() ==> pairs@[a].1 < pairs@[b].1,
            forall|a: int| 0 <= a < pairs.len() ==> pairs@[a].1 < i,
        decreases articles.len() - i,
    {
        let a = &articles[i];
        let by_author = match &key {
            Some(k) => a.author == *k,
            None => true,
        };
        let in_status = match status {
            Some(st) => a.status == st,
            None => true,
        };
        let keep = by_author && in_status;
        proof {
            let d = dated(articles@);
            assert(d.take(i + 1).drop_last() =~= d.take(i as int));
            assert(d.take(i + 1).last() == (a.created_at, i));
            assert(keep == pred((a.created_at, i)));
            reveal(Seq::filter);
        }
        if keep {
            pairs.push((a.created_at, i));
        }
        i = i + 1;
    }
    assert(dated(articles@).take(articles.len() as int) =~= dated(articles@));
    let sorted = sort_newest_first(pairs);
    let mut r: Vec<usize> = Vec::new();
    let mut j: usize = 0;
    while j < sorted.len()
        invariant
            j <= sorted.len(),
            r@ == sorted@.take(j as int).map_values(|x: (i64, usize)| x.1),
        decreases sorted.len() - j,
    {
        r.push(sorted[j].1);
        j = j + 1;
        assert(r@ =~= sorted@.take(j as int).map_values(|x: (i64, usize)| x.1));
    }
    assert(sorted@.take(sorted.len() as int) =~= sorted@);
    r
}

} // verus!
