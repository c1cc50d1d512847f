//! The template engine: a blueprint string with placeholders, rendered
//! against a list of arguments.
//!
//! Grammar of a blueprint:
//! - `{}` is a positional slot. Each positional text argument fills the first
//!   slot still open, in the order the arguments come.
//! - `{key}` is a named slot. A text argument with that key fills every such
//!   slot.
//! - `{?key:A|B}` is a conditional. A flag argument with that key replaces
//!   every such conditional by `A` when it is set and by `B` otherwise. The
//!   first `|` after the key ends `A` and the first `}` after that ends `B`:
//!   neither may hold a `|` or a `}` of its own.
//! - In [`Template::render`], a text argument with an empty key is
//!   positional, and a flag argument resolves the conditionals of its key
//!   (for an empty key, those that start `{?:`) whatever that key is.
//! - In [`Template::render_positional`], every argument is positional: a
//!   text fills the first open `{}` slot, and a flag resolves the first
//!   `{A|B}` group, counting from the first `{` of the text.
//!
//! The arguments are applied one after the other, each to the text that the
//! ones before it left; what an argument puts in may be filled by a later
//! one, which is how one template is nested in another. At the end, every
//! positional slot still open is removed. A conditional that lacks its `|` or
//! its `}` makes the whole render fail.

use vstd::prelude::*;

use crate::search::{
    find,
    find_from,
    lemma_find_some,
    matches_at,
    push_range,
    replace_all,
    replace_all_chars,
    replace_first,
    replace_first_chars,
};
use crate::text::{chars_of, string_of};

verus! {

/// The value of one render argument: text to put in, or a flag that picks
/// one of two alternatives.
pub enum Arg {
    Text(String),
    Bool(bool),
}

/// A render argument: a key and its value. An empty key makes the argument
/// positional.
pub struct ArgEntry {
    pub key: String,
    pub value: Arg,
}

/// Why a blueprint could not be rendered.
#[derive(Debug, Clone, Copy, PartialEq, Eq, Structural)]
pub enum TemplateError {
    /// A positional flag found no `{` to start its group.
    MissingConditional,
    /// A conditional has no `|` after its key.
    MissingSeparator,
    /// A conditional has no `}` after its `|`.
    MissingEnd,
}

/// An immutable blueprint.
pub struct Template {
    content: String,
}

impl View for Template {
    type V = Seq<char>;

    closed spec fn view(&self) -> Seq<char> {
        self.content@
    }
}

/// `{}`
pub open spec fn slot() -> Seq<char> {
    seq!['{', '}']
}

/// `{key}`
pub open spec fn named_slot(key: Seq<char>) -> Seq<char> {
    seq!['{'] + key + seq!['}']
}

/// `{?key:`
pub open spec fn cond_marker(key: Seq<char>) -> Seq<char> {
    seq!['{', '?'] + key + seq![':']
}

/// The first conditional that starts with `marker`, resolved by `b`.
pub open spec fn resolve_first(s: Seq<char>, marker: Seq<char>, b: bool) -> Result<
    Seq<char>,
    TemplateError,
> {
    match find(s, marker, 0) {
        None => Err(TemplateError::MissingConditional),
        Some(i) => match find(s, seq!['|'], i + marker.len()) {
            None => Err(TemplateError::MissingSeparator),
            Some(m) => match find(s, seq!['}'], m + 1) {
                None => Err(TemplateError::MissingEnd),
                Some(e) => Ok(
                    s.subrange(0, i) + (if b {
                        s.subrange(i + marker.len(), m)
                    } else {
                        s.subrange(m + 1, e)
                    }) + s.subrange(e + 1, s.len() as int),
                ),
            },
        },
    }
}

/// Resolving a conditional shortens the text.
pub proof fn lemma_resolve_first_shrinks(s: Seq<char>, marker: Seq<char>, b: bool)
    requires
        resolve_first(s, marker, b) is Ok,
    ensures
        resolve_first(s, marker, b)->Ok_0.len() < s.len(),
{
    lemma_find_some(s, marker, 0);
    let i = find(s, marker, 0)->0;
    lemma_find_some(s, seq!['|'], i + marker.len());
    let m = find(s, seq!['|'], i + marker.len())->0;
    lemma_find_some(s, seq!['}'], m + 1);
}

/// Every conditional that starts with `marker` resolved by `b`, looking
/// again from the start of the text after each one.
pub open spec fn resolve_every(s: Seq<char>, marker: Seq<char>, b: bool) -> Result<
    Seq<char>,
    TemplateError,
>
    decreases s.len(),
    via resolve_every_decreases
{
    if marker.len() == 0 || find(s, marker, 0) is None {
        Ok(s)
    } else {
        match resolve_first(s, marker, b) {
            Err(e) => Err(e),
            Ok(t) => resolve_every(t, marker, b),
        }
    }
}

#[via_fn]
proof fn resolve_every_decreases(s: Seq<char>, marker: Seq<char>, b: bool) {
    if marker.len() == 0 || find(s, marker, 0) is None {
    } else if resolve_first(s, marker, b) is Ok {
        lemma_resolve_first_shrinks(s, marker, b);
    }
}

/// One argument applied to the text `s`.
pub open spec fn apply_arg(s: Seq<char>, key: Seq<char>, value: Arg) -> Result<
    Seq<char>,
    TemplateError,
> {
    match value {
        Arg::Text(t) => if key.len() == 0 {
            Ok(replace_first(s, slot(), t@))
        } else {
            Ok(replace_all(s, named_slot(key), t@))
        },
        Arg::Bool(b) => resolve_every(s, cond_marker(key), b),
    }
}

/// One positional argument applied to the text `s`.
pub open spec fn apply_positional(s: Seq<char>, value: Arg) -> Result<Seq<char>, TemplateError> {
    match value {
        Arg::Text(t) => Ok(replace_first(s, slot(), t@)),
        Arg::Bool(b) => resolve_first(s, seq!['{'], b),
    }
}

/// The positional arguments applied in order; the first failure ends it.
pub open spec fn apply_positionals(s: Seq<char>, args: Seq<Arg>) -> Result<Seq<char>, TemplateError>
    decreases args.len(),
{
    if args.len() == 0 {
        Ok(s)
    } else {
        match apply_positional(s, args[0]) {
            Err(e) => Err(e),
            Ok(t) => apply_positionals(t, args.drop_first()),
        }
    }
}

/// What rendering `blueprint` against positional arguments only gives: the
/// arguments applied in order, then every open positional slot removed.
pub open spec fn rendered_positional(blueprint: Seq<char>, args: Seq<Arg>) -> Result<
    Seq<char>,
    TemplateError,
> {
    match apply_positionals(blueprint, args) {
        Err(e) => Err(e),
        Ok(t) => Ok(replace_all(t, slot(), Seq::empty())),
    }
}

/// The arguments applied in order; the first failure ends it.
pub open spec fn apply_args(s: Seq<char>, args: Seq<(Seq<char>, Arg)>) -> Result<
    Seq<char>,
    TemplateError,
>
    decreases args.len(),
{
    if args.len() == 0 {
        Ok(s)
    } else {
        match apply_arg(s, args[0].0, args[0].1) {
            Err(e) => Err(e),
            Ok(t) => apply_args(t, args.drop_first()),
        }
    }
}

/// What rendering `blueprint` against `args` gives: the arguments applied in
/// order, then every open positional slot removed.
pub open spec fn rendered(blueprint: Seq<char>, args: Seq<(Seq<char>, Arg)>) -> Result<
    Seq<char>,
    TemplateError,
> {
    match apply_args(blueprint, args) {
        Err(e) => Err(e),
        Ok(t) => Ok(replace_all(t, slot(), Seq::empty())),
    }
}

/// The first fault among the conditionals that start at or after `i`: a
/// `{?` with no `|` after it, or a `|` with no `}` after it.
pub open spec fn check_from(s: Seq<char>, i: int) -> Result<(), TemplateError>
    decreases s.len() - i,
{
    if i < 0 || i + 2 > s.len() {
        Ok(())
    } else if s.subrange(i, i + 2) == seq!['{', '?'] {
        match find(s, seq!['|'], i + 2) {
            None => Err(TemplateError::MissingSeparator),
            Some(m) => match find(s, seq!['}'], m + 1) {
                None => Err(TemplateError::MissingEnd),
                Some(_) => check_from(s, i + 1),
            },
        }
    } else {
        check_from(s, i + 1)
    }
}

/// The arguments of the site's header: whether anyone is logged in, and the
/// page to show inside it.
pub open spec fn header_args(logged_in: bool, main_text: String) -> Seq<(Seq<char>, Arg)> {
    seq![("logged_in"@, Arg::Bool(logged_in)), ("main"@, Arg::Text(main_text))]
}

/// Holds of text without `{`, `|` or `}`.
pub open spec fn plain(s: Seq<char>) -> bool {
    forall|i: int| 0 <= i < s.len() ==> s[i] != '{' && s[i] != '|' && s[i] != '}'
}

/// Holds of text without `{`.
pub open spec fn brace_free(s: Seq<char>) -> bool {
    forall|i: int| 0 <= i < s.len() ==> s[i] != '{'
}

/// Neither alternative of the part `p` holds `{`, `|` or `}`, and the text
/// after it holds no `{`.
pub open spec fn plain_part(p: (Seq<char>, Seq<char>, Seq<char>)) -> bool {
    plain(p.0) && plain(p.1) && brace_free(p.2)
}

/// Every part of `parts` is plain.
pub open spec fn plain_parts(parts: Seq<(Seq<char>, Seq<char>, Seq<char>)>) -> bool {
    forall|i: int| 0 <= i < parts.len() ==> plain_part(#[trigger] parts[i])
}

/// The conditional `{?key:a|b}`.
pub open spec fn conditional(key: Seq<char>, a: Seq<char>, b: Seq<char>) -> Seq<char> {
    cond_marker(key) + a + seq!['|'] + b + seq!['}']
}

/// A run of conditionals on one key, each `(a, b, x)` giving `{?key:a|b}`
/// followed by the text `x`.
pub open spec fn conditionals(key: Seq<char>, parts: Seq<(Seq<char>, Seq<char>, Seq<char>)>) -> Seq<char>
    decreases parts.len(),
{
    if parts.len() == 0 {
        Seq::empty()
    } else {
        conditional(key, parts[0].0, parts[0].1) + parts[0].2 + conditionals(key, parts.drop_first())
    }
}

/// What the run `parts` becomes when its key's flag is `flag`: each
/// conditional replaced by its first or its second alternative.
pub open spec fn chosen(flag: bool, parts: Seq<(Seq<char>, Seq<char>, Seq<char>)>) -> Seq<char>
    decreases parts.len(),
{
    if parts.len() == 0 {
        Seq::empty()
    } else {
        (if flag {
            parts[0].0
        } else {
            parts[0].1
        }) + parts[0].2 + chosen(flag, parts.drop_first())
    }
}

/// `y` put before a successful result.
pub open spec fn prepend(y: Seq<char>, r: Result<Seq<char>, TemplateError>) -> Result<
    Seq<char>,
    TemplateError,
> {
    match r {
        Ok(t) => Ok(y + t),
        Err(e) => Err(e),
    }
}

proof fn lemma_find_shift(y: Seq<char>, r: Seq<char>, pat: Seq<char>, i: int)
    requires
        0 <= i,
    ensures
        find(y + r, pat, y.len() + i) == match find(r, pat, i) {
            Some(j) => Some(j + y.len()),
            None => None::<int>,
        },
    decreases r.len() + 1 - i,
{
    let s = y + r;
    if i + pat.len() <= r.len() {
        assert(s.subrange(y.len() + i, y.len() + i + pat.len()) =~= r.subrange(i, i + pat.len()));
        lemma_find_shift(y, r, pat, i + 1);
        assert(y.len() + i + 1 == y.len() + (i + 1));
    }
}

proof fn lemma_find_past_plain(y: Seq<char>, r: Seq<char>, pat: Seq<char>, j: int)
    requires
        brace_free(y),
        pat.len() > 0,
        pat[0] == '{',
        0 <= j <= y.len(),
    ensures
        find(y + r, pat, j) == find(y + r, pat, y.len() as int),
    decreases y.len() - j,
{
    let s = y + r;
    if j < y.len() {
        lemma_find_past_plain(y, r, pat, j + 1);
        if j + pat.len() <= s.len() {
            assert(s.subrange(j, j + pat.len())[0] == y[j]);
        }
    }
}

proof fn lemma_find_shift_plain(y: Seq<char>, r: Seq<char>, pat: Seq<char>)
    requires
        brace_free(y),
        pat.len() > 0,
        pat[0] == '{',
    ensures
        find(y + r, pat, 0) == match find(r, pat, 0) {
            Some(j) => Some(j + y.len()),
            None => None::<int>,
        },
{
    lemma_find_past_plain(y, r, pat, 0);
    lemma_find_shift(y, r, pat, 0);
}

proof fn lemma_resolve_first_shift(y: Seq<char>, r: Seq<char>, m: Seq<char>, b: bool)
    requires
        brace_free(y),
        m.len() > 0,
        m[0] == '{',
    ensures
        resolve_first(y + r, m, b) == prepend(y, resolve_first(r, m, b)),
{
    let s = y + r;
    let n = y.len() as int;
    lemma_find_shift_plain(y, r, m);
    if let Some(i) = find(r, m, 0) {
        lemma_find_some(r, m, 0);
        lemma_find_shift(y, r, seq!['|'], i + m.len());
        assert(n + (i + m.len()) == (i + n) + m.len());
        if let Some(k) = find(r, seq!['|'], i + m.len()) {
            lemma_find_some(r, seq!['|'], i + m.len());
            lemma_find_shift(y, r, seq!['}'], k + 1);
            assert(n + (k + 1) == (k + n) + 1);
            if let Some(e) = find(r, seq!['}'], k + 1) {
                lemma_find_some(r, seq!['}'], k + 1);
                let x = if b {
                    r.subrange(i + m.len(), k)
                } else {
                    r.subrange(k + 1, e)
                };
                assert(s.subrange(0, i + n) =~= y + r.subrange(0, i));
                assert(s.subrange(i + n + m.len(), k + n) =~= r.subrange(i + m.len(), k));
                assert(s.subrange(k + n + 1, e + n) =~= r.subrange(k + 1, e));
                assert(s.subrange(e + n + 1, s.len() as int) =~= r.subrange(e + 1, r.len() as int));
                assert(y + r.subrange(0, i) + x + r.subrange(e + 1, r.len() as int) =~= y + (r.subrange(0, i) + x
                    + r.subrange(e + 1, r.len() as int)));
            }
        }
    }
}

proof fn lemma_resolve_every_shift(y: Seq<char>, r: Seq<char>, m: Seq<char>, b: bool)
    requires
        brace_free(y),
        m.len() > 0,
        m[0] == '{',
    ensures
        resolve_every(y + r, m, b) == prepend(y, resolve_every(r, m, b)),
    decreases r.len(),
{
    lemma_find_shift_plain(y, r, m);
    if find(r, m, 0) is Some {
        lemma_resolve_first_shift(y, r, m, b);
        if let Ok(t) = resolve_first(r, m, b) {
            lemma_resolve_first_shrinks(r, m, b);
            lemma_resolve_every_shift(y, t, m, b);
        }
    }
}

proof fn lemma_first_char(s: Seq<char>, c: char, from: int, p: int)
    requires
        0 <= from <= p < s.len(),
        s[p] == c,
        forall|j: int| from <= j < p ==> s[j] != c,
    ensures
        find(s, seq![c], from) == Some(p),
    decreases p - from,
{
    if from < p {
        assert(s.subrange(from, from + 1)[0] == s[from]);
        lemma_first_char(s, c, from + 1, p);
    } else {
        assert(s.subrange(p, p + 1) =~= seq![c]);
    }
}

proof fn lemma_resolve_head(key: Seq<char>, a: Seq<char>, b: Seq<char>, tail: Seq<char>, flag: bool)
    requires
        plain(a),
        plain(b),
    ensures
        find(conditional(key, a, b) + tail, cond_marker(key), 0) == Some(0int),
        resolve_first(conditional(key, a, b) + tail, cond_marker(key), flag) == Ok::<Seq<char>, TemplateError>(
            (if flag {
                a
            } else {
                b
            }) + tail,
        ),
{
    let m = cond_marker(key);
    let s = conditional(key, a, b) + tail;
    let bar: int = m.len() as int + a.len() as int;
    let end: int = bar + 1 + b.len() as int;
    assert(s.subrange(0, m.len() as int) =~= m);
    assert(s[bar] == '|');
    assert forall|j: int| m.len() <= j < bar implies s[j] != '|' by {
        assert(s[j] == a[j - m.len()]);
    }
    lemma_first_char(s, '|', m.len() as int, bar);
    assert(s[end] == '}');
    assert forall|j: int| bar + 1 <= j < end implies s[j] != '}' by {
        assert(s[j] == b[j - bar - 1]);
    }
    lemma_first_char(s, '}', bar + 1, end);
    assert(s.subrange(0, 0) + s.subrange(m.len() as int, bar) + s.subrange(end + 1, s.len() as int) =~= a + tail);
    assert(s.subrange(0, 0) + s.subrange(bar + 1, end) + s.subrange(end + 1, s.len() as int) =~= b + tail);
}

proof fn lemma_chosen_plain(flag: bool, parts: Seq<(Seq<char>, Seq<char>, Seq<char>)>)
    requires
        plain_parts(parts),
    ensures
        brace_free(chosen(flag, parts)),
    decreases parts.len(),
{
    if parts.len() > 0 {
        let rest = parts.drop_first();
        assert(plain_parts(rest)) by {
            assert forall|i: int| 0 <= i < rest.len() implies plain_part(#[trigger] rest[i]) by {
                assert(rest[i] == parts[i + 1]);
            }
        }
        lemma_chosen_plain(flag, rest);
        let pick = if flag { parts[0].0 } else { parts[0].1 };
        assert(plain_part(parts[0]));
        assert(plain(pick));
        assert(brace_free(pick));
        assert(brace_free(parts[0].2));
    }
}

proof fn lemma_resolve_conditionals(key: Seq<char>, flag: bool, parts: Seq<(Seq<char>, Seq<char>, Seq<char>)>)
    requires
        plain_parts(parts),
    ensures
        resolve_every(conditionals(key, parts), cond_marker(key), flag) == Ok::<Seq<char>, TemplateError>(
            chosen(flag, parts),
        ),
    decreases parts.len(),
{
    let m = cond_marker(key);
    if parts.len() == 0 {
        assert(find(Seq::<char>::empty(), m, 0) is None);
    } else {
        let rest = parts.drop_first();
        assert(plain_parts(rest)) by {
            assert forall|i: int| 0 <= i < rest.len() implies plain_part(#[trigger] rest[i]) by {
                assert(rest[i] == parts[i + 1]);
            }
        }
        let (a, b, x) = parts[0];
        assert(plain_part(parts[0]));
        let tail = x + conditionals(key, rest);
        assert(conditionals(key, parts) =~= conditional(key, a, b) + tail);
        lemma_resolve_head(key, a, b, tail, flag);
        let pick = if flag { a } else { b };
        let y = pick + x;
        assert(brace_free(y));
        assert(pick + tail =~= y + conditionals(key, rest));
        assert(m[0] == '{');
        lemma_resolve_every_shift(y, conditionals(key, rest), m, flag);
        lemma_resolve_conditionals(key, flag, rest);
        assert(y + chosen(flag, rest) =~= chosen(flag, parts));
    }
}

proof fn lemma_replace_plain(t: Seq<char>, rep: Seq<char>)
    requires
        brace_free(t),
    ensures
        replace_all(t, slot(), rep) == t,
    decreases t.len(),
{
    if t.len() >= 2 {
        assert(t.subrange(0, 2)[0] == t[0]);
        let rest = t.subrange(1, t.len() as int);
        assert(brace_free(rest));
        lemma_replace_plain(rest, rep);
        assert(seq![t[0]] + rest =~= t);
    }
}

/// A flag resolves every conditional on its key, however many there are:
/// rendering, against the one flag `flag` for `key`, a text without `{`
/// followed by a run of conditionals on `key`, each followed by text without
/// `{` and with alternatives that hold no `{`, `|` or `}`, gives the text
/// with each conditional replaced by its first alternative when `flag` is
/// set and by its second otherwise.
pub proof fn lemma_repeated_conditional(
    key: Seq<char>,
    flag: bool,
    lead: Seq<char>,
    parts: Seq<(Seq<char>, Seq<char>, Seq<char>)>,
)
    requires
        brace_free(lead),
        plain_parts(parts),
    ensures
        rendered(lead + conditionals(key, parts), seq![(key, Arg::Bool(flag))]) == Ok::<Seq<char>, TemplateError>(
            lead + chosen(flag, parts),
        ),
{
    let m = cond_marker(key);
    let args = seq![(key, Arg::Bool(flag))];
    assert(m[0] == '{');
    lemma_resolve_conditionals(key, flag, parts);
    lemma_resolve_every_shift(lead, conditionals(key, parts), m, flag);
    assert(args.drop_first() =~= Seq::<(Seq<char>, Arg)>::empty());
    lemma_chosen_plain(flag, parts);
    let out = lead + chosen(flag, parts);
    let blueprint = lead + conditionals(key, parts);
    assert(args[0].0 == key && args[0].1 == Arg::Bool(flag));
    assert(apply_arg(blueprint, key, Arg::Bool(flag)) == resolve_every(blueprint, m, flag));
    assert(resolve_every(blueprint, m, flag) == Ok::<Seq<char>, TemplateError>(out));
    assert(apply_args(out, args.drop_first()) == Ok::<Seq<char>, TemplateError>(out));
    assert(apply_args(blueprint, args) == Ok::<Seq<char>, TemplateError>(out));
    assert(brace_free(out));
    lemma_replace_plain(out, Seq::empty());
}

/// Each entry as its key's characters and its value.
pub open spec fn entries_view(args: Seq<ArgEntry>) -> Seq<(Seq<char>, Arg)> {
    args.map_values(|e: ArgEntry| (e.key@, e.value))
}

pub open spec fn chars_result(r: Result<Vec<char>, TemplateError>) -> Result<
    Seq<char>,
    TemplateError,
> {
    match r {
        Ok(v) => Ok(v@),
        Err(e) => Err(e),
    }
}

pub open spec fn string_result(r: Result<String, TemplateError>) -> Result<
    Seq<char>,
    TemplateError,
> {
    match r {
        Ok(s) => Ok(s@),
        Err(e) => Err(e),
    }
}

fn one_char(c: char) -> (v: Vec<char>)
    ensures
        v@ == seq![c],
{
    let mut v: Vec<char> = Vec::new();
    v.push(c);
    assert(v@ =~= seq![c]);
    v
}

fn cond_open_chars() -> (v: Vec<char>)
    ensures
        v@ == seq!['{', '?'],
{
    let mut v: Vec<char> = Vec::new();
    v.push('{');
    v.push('?');
    assert(v@ =~= seq!['{', '?']);
    v
}

fn slot_chars() -> (v: Vec<char>)
    ensures
        v@ == slot(),
{
    let mut v: Vec<char> = Vec::new();
    v.push('{');
    v.push('}');
    assert(v@ =~= slot());
    v
}

fn named_slot_chars(key: &Vec<char>) -> (v: Vec<char>)
    ensures
        v@ == named_slot(key@),
{
    let mut v: Vec<char> = Vec::new();
    v.push('{');
    push_range(&mut v, key, 0, key.len());
    v.push('}');
    assert(key@.subrange(0, key.len() as int) =~= key@);
    assert(v@ =~= named_slot(key@));
    v
}

fn cond_marker_chars(key: &Vec<char>) -> (v: Vec<char>)
    ensures
        v@ == cond_marker(key@),
{
    let mut v: Vec<char> = Vec::new();
    v.push('{');
    v.push('?');
    push_range(&mut v, key, 0, key.len());
    v.push(':');
    assert(key@.subrange(0, key.len() as int) =~= key@);
    assert(v@ =~= cond_marker(key@));
    v
}

/// Resolves the first conditional that starts with `marker`.
fn resolve_first_chars(s: &Vec<char>, marker: &Vec<char>, b: bool) -> (r: Result<
    Vec<char>,
    TemplateError,
>)
    ensures
        chars_result(r) == resolve_first(s@, marker@, b),
{
    let bar = one_char('|');
    let close = one_char('}');
    let i = match find_from(s, marker, 0) {
        None => return Err(TemplateError::MissingConditional),
        Some(i) => i,
    };
    let m = match find_from(s, &bar, i + marker.len()) {
        None => return Err(TemplateError::MissingSeparator),
        Some(m) => m,
    };
    let e = match find_from(s, &close, m + 1) {
        None => return Err(TemplateError::MissingEnd),
        Some(e) => e,
    };
    let mut out: Vec<char> = Vec::new();
    push_range(&mut out, s, 0, i);
    if b {
        push_range(&mut out, s, i + marker.len(), m);
    } else {
        push_range(&mut out, s, m + 1, e);
    }
    push_range(&mut out, s, e + 1, s.len());
    Ok(out)
}

/// Resolves every conditional that starts with `marker`.
fn resolve_every_chars(s: Vec<char>, marker: &Vec<char>, b: bool) -> (r: Result<
    Vec<char>,
    TemplateError,
>)
    ensures
        chars_result(r) == resolve_every(s@, marker@, b),
{
    if marker.len() == 0 {
        return Ok(s);
    }
    let mut cur = s;
    while find_from(&cur, marker, 0).is_some()
        invariant
            marker.len() > 0,
            resolve_every(s@, marker@, b) == resolve_every(cur@, marker@, b),
        decreases cur.len(),
    {
        match resolve_first_chars(&cur, marker, b) {
            Err(e) => return Err(e),
            Ok(t) => {
                proof {
                    lemma_resolve_first_shrinks(cur@, marker@, b);
                }
                cur = t;
            },
        }
    }
    Ok(cur)
}

/// Applies one argument to the text `s`.
fn apply_arg_chars(s: Vec<char>, key: &Vec<char>, value: &Arg) -> (r: Result<
    Vec<char>,
    TemplateError,
>)
    ensures
        chars_result(r) == apply_arg(s@, key@, *value),
{
    match value {
        Arg::Text(t) => {
            let rep = chars_of(t.as_str());
            if key.len() == 0 {
                Ok(replace_first_chars(&s, &slot_chars(), &rep))
            } else {
                Ok(replace_all_chars(&s, &named_slot_chars(key), &rep))
            }
        },
        Arg::Bool(b) => resolve_every_chars(s, &cond_marker_chars(key), *b),
    }
}

/// Applies one positional argument to the text `s`.
fn apply_positional_chars(s: Vec<char>, value: &Arg) -> (r: Result<Vec<char>, TemplateError>)
    ensures
        chars_result(r) == apply_positional(s@, *value),
{
    match value {
        Arg::Text(t) => {
            let rep = chars_of(t.as_str());
            Ok(replace_first_chars(&s, &slot_chars(), &rep))
        },
        Arg::Bool(b) => resolve_first_chars(&s, &one_char('{'), *b),
    }
}

impl From<bool> for Arg {
    fn from(value: bool) -> (r: Arg) {
        Arg::Bool(value)
    }
}

impl vstd::std_specs::convert::FromSpecImpl<bool> for Arg {
    open spec fn obeys_from_spec() -> bool {
        true
    }

    open spec fn from_spec(value: bool) -> Arg {
        Arg::Bool(value)
    }
}

impl From<String> for Arg {
    fn from(text: String) -> (r: Arg) {
        Arg::Text(text)
    }
}

impl vstd::std_specs::convert::FromSpecImpl<String> for Arg {
    open spec fn obeys_from_spec() -> bool {
        true
    }

    open spec fn from_spec(text: String) -> Arg {
        Arg::Text(text)
    }
}

impl ArgEntry {
    /// An entry that fills the slots named `key`.
    pub fn new(key: &str, value: Arg) -> (r: ArgEntry)
        ensures
            r.key@ == key@,
            r.value == value,
    {
        ArgEntry { key: key.to_owned(), value }
    }
}

impl Template {
    /// A template over the blueprint `content`.
    pub fn new(content: &str) -> (t: Template)
        ensures
            t@ == content@,
    {
        Template { content: content.to_owned() }
    }

    /// Checks every conditional of the blueprint for its `|` and its `}`, so
    /// that a broken blueprint is found when it is loaded.
    pub fn validate(&self) -> (r: Result<(), TemplateError>)
        ensures
            r == check_from(self@, 0),
    {
        let s = chars_of(self.content.as_str());
        let open = cond_open_chars();
        let bar = one_char('|');
        let close = one_char('}');
        let mut i: usize = 0;
        while i < s.len()
            invariant
                s@ == self@,
                open@ == seq!['{', '?'],
                bar@ == seq!['|'],
                close@ == seq!['}'],
                i <= s.len(),
                check_from(self@, 0) == check_from(self@, i as int),
            decreases s.len() - i,
        {
            if matches_at(&s, i, &open) {
                let m = match find_from(&s, &bar, i + 2) {
                    None => return Err(TemplateError::MissingSeparator),
                    Some(m) => m,
                };
                if find_from(&s, &close, m + 1).is_none() {
                    return Err(TemplateError::MissingEnd);
                }
            }
            i = i + 1;
        }
        Ok(())
    }

    /// The blueprint itself, for nesting it in another template.
    pub fn content(&self) -> (r: &str)
        ensures
            r@ == self@,
    {
        self.content.as_str()
    }

    /// The blueprint rendered against named (and positional) arguments.
    pub fn render(&self, args: Vec<ArgEntry>) -> (r: Result<String, TemplateError>)
        ensures
            string_result(r) == rendered(self@, entries_view(args@)),
    {
        let ghost all = entries_view(args@);
        let mut cur = chars_of(self.content.as_str());
        let mut i: usize = 0;
        assert(all.subrange(0, all.len() as int) =~= all);
        while i < args.len()
            invariant
                i <= args.len(),
                all == entries_view(args@),
                apply_args(self@, all) == apply_args(cur@, all.subrange(i as int, all.len() as int)),
            decreases args.len() - i,
        {
            let ghost rest = all.subrange(i as int, all.len() as int);
            assert(rest.drop_first() =~= all.subrange(i + 1, all.len() as int));
            let key = chars_of(args[i].key.as_str());
            match apply_arg_chars(cur, &key, &args[i].value) {
                Err(e) => return Err(e),
                Ok(t) => cur = t,
            }
            i = i + 1;
        }
        let nothing: Vec<char> = Vec::new();
        assert(nothing@ =~= Seq::<char>::empty());
        let out = replace_all_chars(&cur, &slot_chars(), &nothing);
        Ok(string_of(&out))
    }

    /// The blueprint rendered against positional arguments only.
    pub fn render_positional(&self, args: Vec<Arg>) -> (r: Result<String, TemplateError>)
        ensures
            string_result(r) == rendered_positional(self@, args@),
    {
        let ghost all = args@;
        let mut cur = chars_of(self.content.as_str());
        let mut i: usize = 0;
        assert(all.subrange(0, all.len() as int) =~= all);
        while i < args.len()
            invariant
                i <= args.len(),
                all == args@,
                apply_positionals(self@, all) == apply_positionals(
                    cur@,
                    all.subrange(i as int, all.len() as int),
                ),
            decreases args.len() - i,
        {
            let ghost rest = all.subrange(i as int, all.len() as int);
            assert(rest.drop_first() =~= all.subrange(i + 1, all.len() as int));
            match apply_positional_chars(cur, &args[i]) {
                Err(e) => return Err(e),
                Ok(t) => cur = t,
            }
            i = i + 1;
        }
        let nothing: Vec<char> = Vec::new();
        assert(nothing@ =~= Seq::<char>::empty());
        let out = replace_all_chars(&cur, &slot_chars(), &nothing);
        Ok(string_of(&out))
    }
}

/// `main` rendered inside the site's header, which shows whether anyone is
/// logged in.
pub fn render_with_header(header: &Template, logged_in: bool, main: &str) -> (r: Result<String, TemplateError>)
    ensures
        exists|t: String|
            t@ == main@ && string_result(r) == rendered(header@, #[trigger] header_args(logged_in, t)),
{
    let text = main.to_owned();
    let ghost t = text;
    let mut args: Vec<ArgEntry> = Vec::new();
    args.push(ArgEntry::new("logged_in", Arg::Bool(logged_in)));
    args.push(ArgEntry::new("main", Arg::Text(text)));
    assert(entries_view(args@) =~= header_args(logged_in, t));
    header.render(args)
}

} // verus!
