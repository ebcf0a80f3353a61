//! Laws of the search engine, stated over its mathematical model.
//!
//! Each public proof function here states one property of [`search_spec`]
//! or [`search_ci_spec`], the models that the ensures clauses of
//! [`crate::search::search`] and [`crate::search::search_case_intensive`]
//! speak of, so the properties carry over to the executable functions.

use vstd::prelude::*;

verus! {

use crate::search::contains_seq;
use crate::search::find_nl;
use crate::search::lemma_find_nl_bounds;
use crate::search::lines_spec;
use crate::search::lower_char_spec;
use crate::search::lower_seq;
use crate::search::matches_at;
use crate::search::search_ci_spec;
use crate::search::search_spec;
use crate::search::strip_cr;

/// `c` is an ASCII letter, a character with distinct case forms.
pub open spec fn is_cased_letter(c: char) -> bool {
    ('a' <= c && c <= 'z') || ('A' <= c && c <= 'Z')
}

/// No character of `q` is an ASCII letter, so `q` has no case variants.
pub open spec fn caseless(q: Seq<char>) -> bool {
    forall|k: int| 0 <= k < q.len() ==> !is_cased_letter(#[trigger] q[k])
}

/// `sub` is `s` with zero or more elements deleted, the rest kept in
/// their original order, duplicates included.
pub open spec fn subsequence_of<A>(sub: Seq<A>, s: Seq<A>) -> bool
    decreases s.len(),
{
    if sub.len() == 0 {
        true
    } else if s.len() == 0 {
        false
    } else if sub.last() == s.last() {
        subsequence_of(sub.drop_last(), s.drop_last())
    } else {
        subsequence_of(sub, s.drop_last())
    }
}

proof fn lemma_filter_subsequence<A>(s: Seq<A>, p: spec_fn(A) -> bool)
    ensures
        subsequence_of(s.filter(p), s),
    decreases s.len(),
{
    if s.len() == 0 {
        assert(s.filter(p) =~= Seq::<A>::empty());
    } else {
        let t = s.drop_last();
        let x = s.last();
        lemma_filter_subsequence(t, p);
        t.lemma_filter_push(x, p);
        assert(s =~= t.push(x));
        assert(t.push(x).drop_last() =~= t);
        if p(x) {
            assert(t.filter(p).push(x).drop_last() =~= t.filter(p));
        } else {
            let sub = t.filter(p);
            if sub.len() > 0 {
                t.lemma_filter_pred(p, sub.len() - 1);
                assert(sub.last() != x);
            }
        }
    }
}

proof fn lemma_filter_congruent<A>(s: Seq<A>, p: spec_fn(A) -> bool, r: spec_fn(A) -> bool)
    requires
        forall|x: A| #[trigger] p(x) == r(x),
    ensures
        s.filter(p) == s.filter(r),
    decreases s.len(),
{
    if s.len() > 0 {
        lemma_filter_congruent(s.drop_last(), p, r);
        s.drop_last().lemma_filter_push(s.last(), p);
        s.drop_last().lemma_filter_push(s.last(), r);
        assert(s =~= s.drop_last().push(s.last()));
    } else {
        assert(s.filter(p) =~= s.filter(r));
    }
}

proof fn lemma_filter_count_mono<A>(s: Seq<A>, p: spec_fn(A) -> bool, r: spec_fn(A) -> bool)
    requires
        forall|x: A| #[trigger] p(x) ==> r(x),
    ensures
        s.filter(p).len() <= s.filter(r).len(),
    decreases s.len(),
{
    if s.len() > 0 {
        lemma_filter_count_mono(s.drop_last(), p, r);
        s.drop_last().lemma_filter_push(s.last(), p);
        s.drop_last().lemma_filter_push(s.last(), r);
        assert(s =~= s.drop_last().push(s.last()));
    }
}

proof fn lemma_filter_all<A>(s: Seq<A>, p: spec_fn(A) -> bool)
    requires
        forall|i: int| 0 <= i < s.len() ==> p(#[trigger] s[i]),
    ensures
        s.filter(p) == s,
    decreases s.len(),
{
    if s.len() > 0 {
        assert(forall|i: int| 0 <= i < s.drop_last().len() ==> #[trigger] s.drop_last()[i]
            == s[i]);
        lemma_filter_all(s.drop_last(), p);
        s.drop_last().lemma_filter_push(s.last(), p);
        assert(s =~= s.drop_last().push(s.last()));
    } else {
        assert(s.filter(p) =~= s);
    }
}

/// A literal match survives lowercasing both sides: the fold is applied
/// character by character, so it maps the occurrence in place.
proof fn lemma_lower_preserves_match(l: Seq<char>, q: Seq<char>)
    requires
        contains_seq(l, q),
    ensures
        contains_seq(lower_seq(l), lower_seq(q)),
{
    let i = choose|i: int| matches_at(l, q, i);
    assert forall|k: int| 0 <= k < q.len() implies lower_seq(l).subrange(
        i,
        i + q.len() as int,
    )[k] == lower_seq(q)[k] by {
        assert(l.subrange(i, i + q.len() as int)[k] == l[i + k]);
    }
    assert(lower_seq(l).subrange(i, i + q.len() as int) =~= lower_seq(q));
    assert(matches_at(lower_seq(l), lower_seq(q), i));
}

/// Lowercasing maps no character onto one that is not an ASCII letter:
/// such characters match case-insensitively only themselves.
proof fn lemma_lower_fixes_caseless(c: char, d: char)
    requires
        !is_cased_letter(c),
        lower_char_spec(d) == c,
    ensures
        d == c,
{
    if 'A' <= d && d <= 'Z' {
        assert('a' <= lower_char_spec(d) && lower_char_spec(d) <= 'z');
    }
}

/// For a query without ASCII letters, matching after lowercasing both
/// sides is the same as matching literally.
proof fn lemma_ci_match_caseless(l: Seq<char>, q: Seq<char>)
    requires
        caseless(q),
    ensures
        contains_seq(lower_seq(l), lower_seq(q)) == contains_seq(l, q),
{
    assert(lower_seq(q) =~= q);
    if contains_seq(l, q) {
        lemma_lower_preserves_match(l, q);
    }
    if contains_seq(lower_seq(l), lower_seq(q)) {
        let i = choose|i: int| matches_at(lower_seq(l), lower_seq(q), i);
        assert forall|k: int| 0 <= k < q.len() implies l.subrange(i, i + q.len() as int)[k]
            == q[k] by {
            assert(lower_seq(l).subrange(i, i + q.len() as int)[k] == lower_seq(l)[i + k]);
            lemma_lower_fixes_caseless(q[k], l[i + k]);
        }
        assert(l.subrange(i, i + q.len() as int) =~= q);
        assert(matches_at(l, q, i));
    }
}

/// Exact search is sound and complete: every returned line contains the
/// query, and every corpus line that contains the query is returned. The
/// order is fixed by the model itself, which is the in-order filter of the
/// corpus's lines.
pub proof fn lemma_search_exact(query: Seq<char>, contents: Seq<char>)
    ensures
        forall|i: int|
            0 <= i < search_spec(query, contents).len() ==> contains_seq(
                #[trigger] search_spec(query, contents)[i],
                query,
            ),
        forall|j: int|
            0 <= j < lines_spec(contents).len() && contains_seq(
                #[trigger] lines_spec(contents)[j],
                query,
            ) ==> search_spec(query, contents).contains(lines_spec(contents)[j]),
{
    let pred = |line: Seq<char>| contains_seq(line, query);
    let lines = lines_spec(contents);
    assert forall|i: int| 0 <= i < search_spec(query, contents).len() implies contains_seq(
        search_spec(query, contents)[i],
        query,
    ) by {
        lines.lemma_filter_pred(pred, i);
    }
    assert forall|j: int|
        0 <= j < lines.len() && contains_seq(lines[j], query) implies search_spec(
        query,
        contents,
    ).contains(lines[j]) by {
        lines.lemma_filter_contains(pred, j);
    }
}

/// The result of either search mode is a subsequence of the corpus's
/// lines: original order kept, duplicates kept, nothing added.
pub proof fn lemma_results_subsequence(query: Seq<char>, contents: Seq<char>)
    ensures
        subsequence_of(search_spec(query, contents), lines_spec(contents)),
        subsequence_of(search_ci_spec(query, contents), lines_spec(contents)),
{
    let p = |line: Seq<char>| contains_seq(line, query);
    let r = |line: Seq<char>| contains_seq(lower_seq(line), lower_seq(query));
    lemma_filter_subsequence(lines_spec(contents), p);
    lemma_filter_subsequence(lines_spec(contents), r);
}

/// Case-insensitive search returns a superset of exact search: at least as
/// many lines, and every line of the exact result among them.
pub proof fn lemma_ci_superset(query: Seq<char>, contents: Seq<char>)
    ensures
        search_spec(query, contents).len() <= search_ci_spec(query, contents).len(),
        forall|i: int|
            0 <= i < search_spec(query, contents).len() ==> search_ci_spec(
                query,
                contents,
            ).contains(#[trigger] search_spec(query, contents)[i]),
{
    let p = |line: Seq<char>| contains_seq(line, query);
    let r = |line: Seq<char>| contains_seq(lower_seq(line), lower_seq(query));
    let lines = lines_spec(contents);
    assert forall|line: Seq<char>| #[trigger] p(line) implies r(line) by {
        lemma_lower_preserves_match(line, query);
    }
    lemma_filter_count_mono(lines, p, r);
    assert forall|i: int| 0 <= i < search_spec(query, contents).len() implies search_ci_spec(
        query,
        contents,
    ).contains(search_spec(query, contents)[i]) by {
        let line = lines.filter(p)[i];
        assert(lines.filter(p).contains(line));
        lines.lemma_filter_contains_rev(p, line);
        let j = choose|j: int| 0 <= j < lines.len() && lines[j] == line;
        lines.lemma_filter_pred(p, i);
        lines.lemma_filter_contains(r, j);
    }
}

/// For a query without ASCII letters, both search modes return exactly the
/// same lines.
pub proof fn lemma_ci_caseless(query: Seq<char>, contents: Seq<char>)
    requires
        caseless(query),
    ensures
        search_ci_spec(query, contents) == search_spec(query, contents),
{
    let p = |line: Seq<char>| contains_seq(line, query);
    let r = |line: Seq<char>| contains_seq(lower_seq(line), lower_seq(query));
    assert forall|line: Seq<char>| #[trigger] r(line) == p(line) by {
        lemma_ci_match_caseless(line, query);
    }
    lemma_filter_congruent(lines_spec(contents), r, p);
}

/// An empty query matches every line: searching for it returns the whole
/// corpus, line by line, unchanged.
pub proof fn lemma_search_empty_query(contents: Seq<char>)
    ensures
        search_spec(Seq::empty(), contents) == lines_spec(contents),
{
    let pred = |line: Seq<char>| contains_seq(line, Seq::<char>::empty());
    assert forall|i: int|
        0 <= i < lines_spec(contents).len() implies pred(
        #[trigger] lines_spec(contents)[i],
    ) by {
        let line = lines_spec(contents)[i];
        assert(line.subrange(0, 0) =~= Seq::<char>::empty());
        assert(matches_at(line, Seq::<char>::empty(), 0));
    }
    lemma_filter_all(lines_spec(contents), pred);
}

/// An empty corpus has no lines, so both search modes return nothing.
pub proof fn lemma_search_empty_corpus(query: Seq<char>)
    ensures
        search_spec(query, Seq::empty()) == Seq::<Seq<char>>::empty(),
        search_ci_spec(query, Seq::empty()) == Seq::<Seq<char>>::empty(),
{
    let p = |line: Seq<char>| contains_seq(line, query);
    let r = |line: Seq<char>| contains_seq(lower_seq(line), lower_seq(query));
    assert(lines_spec(Seq::<char>::empty()) == Seq::<Seq<char>>::empty());
    Seq::<Seq<char>>::empty().lemma_filter_len(p);
    Seq::<Seq<char>>::empty().lemma_filter_len(r);
    assert(search_spec(query, Seq::empty()) =~= Seq::<Seq<char>>::empty());
    assert(search_ci_spec(query, Seq::empty()) =~= Seq::<Seq<char>>::empty());
}

/// Every line is embedded in the corpus: a match inside a line is a match
/// inside the corpus at a known offset.
proof fn lemma_line_match_in_corpus(s: Seq<char>, q: Seq<char>, j: int)
    requires
        0 <= j < lines_spec(s).len(),
        contains_seq(lines_spec(s)[j], q),
    ensures
        contains_seq(s, q),
    decreases s.len(),
{
    lemma_find_nl_bounds(s);
    let i = find_nl(s);
    if s.len() == 0 {
        // no lines, so the bounds on j are contradictory
    } else if 0 <= i && i < s.len() {
        let pre = s.subrange(0, i);
        let rest = s.subrange(i + 1, s.len() as int);
        if j == 0 {
            let line = strip_cr(pre);
            let k = choose|k: int| matches_at(line, q, k);
            assert forall|t: int| 0 <= t < q.len() implies s.subrange(k, k + q.len() as int)[t]
                == q[t] by {
                assert(line.subrange(k, k + q.len() as int)[t] == line[k + t]);
            }
            assert(s.subrange(k, k + q.len() as int) =~= q);
            assert(matches_at(s, q, k));
        } else {
            lemma_line_match_in_corpus(rest, q, j - 1);
            let k = choose|k: int| matches_at(rest, q, k);
            assert forall|t: int|
                0 <= t < q.len() implies s.subrange(
                i + 1 + k,
                i + 1 + k + q.len() as int,
            )[t] == q[t] by {
                assert(rest.subrange(k, k + q.len() as int)[t] == rest[k + t]);
            }
            assert(s.subrange(i + 1 + k, i + 1 + k + q.len() as int) =~= q);
            assert(matches_at(s, q, i + 1 + k));
        }
    } else {
        // the whole corpus is the single line
    }
}

/// A query that the corpus does not contain matches no line: exact search
/// returns nothing.
pub proof fn lemma_search_absent(query: Seq<char>, contents: Seq<char>)
    requires
        !contains_seq(contents, query),
    ensures
        search_spec(query, contents) == Seq::<Seq<char>>::empty(),
{
    let pred = |line: Seq<char>| contains_seq(line, query);
    let lines = lines_spec(contents);
    assert forall|i: int| 0 <= i < lines.len() implies !pred(#[trigger] lines[i]) by {
        if pred(lines[i]) {
            lemma_line_match_in_corpus(contents, query, i);
        }
    }
    lines.lemma_all_neg_filter_empty(pred);
    assert(search_spec(query, contents) =~= Seq::<Seq<char>>::empty());
}

} // verus!
