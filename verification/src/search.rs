//! The search engine: line splitting and substring matching.

use vstd::prelude::*;
use vstd::std_specs::iter::IteratorSpec;

use crate::config::Config;

verus! {

/// Lowercases a single character, ASCII-only: `'A'..='Z'` map to their
/// lowercase counterparts, every other character is unchanged.
pub open spec fn lower_char_spec(c: char) -> char {
    if 'A' <= c && c <= 'Z' {
        ((c as u8) + 0x20) as char
    } else {
        c
    }
}

/// Lowercases a whole character sequence, ASCII-only.
pub open spec fn lower_seq(s: Seq<char>) -> Seq<char> {
    s.map_values(|c: char| lower_char_spec(c))
}

/// The needle occurs in the haystack starting exactly at index `i`.
pub open spec fn matches_at(hay: Seq<char>, needle: Seq<char>, i: int) -> bool {
    &&& 0 <= i
    &&& i + needle.len() <= hay.len()
    &&& hay.subrange(i, i + needle.len()) == needle
}

/// The needle occurs somewhere in the haystack as a contiguous substring.
/// An empty needle occurs in every haystack.
pub open spec fn contains_seq(hay: Seq<char>, needle: Seq<char>) -> bool {
    exists|i: int| matches_at(hay, needle, i)
}

/// The index of the first line feed in `s`, or `s.len()` when there is none.
pub open spec fn find_nl(s: Seq<char>) -> int
    decreases s.len(),
{
    if s.len() == 0 {
        0
    } else if s[0] == '\n' {
        0
    } else {
        1 + find_nl(s.drop_first())
    }
}

/// Drops one carriage return from the end of a line, if there is one.
pub open spec fn strip_cr(line: Seq<char>) -> Seq<char> {
    if line.len() > 0 && line.last() == '\r' {
        line.drop_last()
    } else {
        line
    }
}

/// The lines of a corpus: segments split at each line feed, with a carriage
/// return directly before a line feed stripped. A final segment without a
/// trailing line feed is still a line; a trailing line feed adds no empty
/// final line; an empty corpus has no lines.
pub open spec fn lines_spec(s: Seq<char>) -> Seq<Seq<char>>
    decreases s.len(),
{
    if s.len() == 0 {
        Seq::empty()
    } else {
        let i = find_nl(s);
        if 0 <= i && i < s.len() {
            seq![strip_cr(s.subrange(0, i))] + lines_spec(s.subrange(i + 1, s.len() as int))
        } else {
            seq![s]
        }
    }
}

/// The lines of the corpus that contain the query literally, in order.
pub open spec fn search_spec(query: Seq<char>, contents: Seq<char>) -> Seq<Seq<char>> {
    lines_spec(contents).filter(|line: Seq<char>| contains_seq(line, query))
}

/// The lines of the corpus that contain the query up to ASCII case, in
/// order; the lines keep their original case.
pub open spec fn search_ci_spec(query: Seq<char>, contents: Seq<char>) -> Seq<Seq<char>> {
    lines_spec(contents).filter(|line: Seq<char>| contains_seq(lower_seq(line), lower_seq(query)))
}

pub(crate) proof fn lemma_find_nl_bounds(s: Seq<char>)
    ensures
        0 <= find_nl(s) <= s.len(),
        forall|k: int| 0 <= k < find_nl(s) ==> s[k] != '\n',
        find_nl(s) < s.len() ==> s[find_nl(s)] == '\n',
    decreases s.len(),
{
    if s.len() > 0 && s[0] != '\n' {
        lemma_find_nl_bounds(s.drop_first());
        assert forall|k: int| 0 <= k < find_nl(s) implies s[k] != '\n' by {
            if k > 0 {
                assert(s.drop_first()[k - 1] == s[k]);
            }
        }
    }
}

/// Collects the characters of a string slice into a vector.
fn chars_of(s: &str) -> (r: Vec<char>)
    ensures
        r@ == s@,
{
    let mut it = s.chars();
    let mut v: Vec<char> = Vec::new();
    loop
        invariant_except_break
            it.obeys_prophetic_iter_laws(),
            IteratorSpec::decrease(&it) is Some,
            v@ + it.remaining() =~= s@,
        ensures
            v@ == s@,
        decreases IteratorSpec::decrease(&it)->0,
    {
        match it.next() {
            Some(c) => {
                v.push(c);
            },
            None => {
                assert(v@ =~= s@);
                break ;
            },
        }
    }
    v
}

/// Relies on `String`'s `FromIterator<char>` implementation: collecting
/// characters yields the string with exactly those characters in order.
#[verifier::external_body]
fn string_from_chars(v: &Vec<char>) -> (r: String)
    ensures
        r@ == v@,
{
    v.iter().collect()
}

/// Lowercases one character, ASCII-only.
fn lower_char(c: char) -> (r: char)
    ensures
        r == lower_char_spec(c),
{
    let u: u32 = c as u32;
    if 65 <= u && u <= 90 {
        ((u as u8) + 0x20) as char
    } else {
        c
    }
}

/// Lowercases every character of a vector, ASCII-only.
fn lower_vec(v: &Vec<char>) -> (r: Vec<char>)
    ensures
        r@ == lower_seq(v@),
{
    let mut r: Vec<char> = Vec::new();
    let mut i: usize = 0;
    while i < v.len()
        invariant
            0 <= i <= v@.len(),
            r@.len() == i,
            forall|j: int| 0 <= j < i ==> r@[j] == lower_char_spec(v@[j]),
        decreases v@.len() - i,
    {
        r.push(lower_char(v[i]));
        i += 1;
    }
    assert(r@ =~= lower_seq(v@));
    r
}

/// Tests whether the needle occurs in the haystack at exactly index `i`.
fn match_at(hay: &Vec<char>, needle: &Vec<char>, i: usize) -> (b: bool)
    requires
        i + needle@.len() <= hay@.len(),
    ensures
        b == matches_at(hay@, needle@, i as int),
{
    let hay_len: usize = hay.len();
    let mut k: usize = 0;
    while k < needle.len()
        invariant
            hay_len == hay@.len(),
            i + needle@.len() <= hay@.len(),
            0 <= k <= needle@.len(),
            forall|j: int| 0 <= j < k ==> hay@[i + j] == needle@[j],
        decreases needle@.len() - k,
    {
        if hay[i + k] != needle[k] {
            assert(!matches_at(hay@, needle@, i as int)) by {
                assert(hay@.subrange(i as int, i + needle@.len())[k as int] == hay@[i + k]);
            }
            return false;
        }
        k += 1;
    }
    assert(hay@.subrange(i as int, i + needle@.len()) =~= needle@);
    true
}

/// Tests whether the needle occurs anywhere in the haystack; an empty
/// needle always occurs.
fn contains_chars(hay: &Vec<char>, needle: &Vec<char>) -> (b: bool)
    ensures
        b == contains_seq(hay@, needle@),
{
    if needle.len() > hay.len() {
        return false;
    }
    let end: usize = hay.len() - needle.len();
    let mut i: usize = 0;
    loop
        invariant
            needle@.len() <= hay@.len(),
            end == hay@.len() - needle@.len(),
            0 <= i <= end,
            forall|j: int| 0 <= j < i ==> !matches_at(hay@, needle@, j),
        decreases end - i,
    {
        if match_at(hay, needle, i) {
            return true;
        }
        if i == end {
            assert forall|j: int| !matches_at(hay@, needle@, j) by {
                if 0 <= j < i {
                } else if j == i {
                }
            }
            return false;
        }
        i += 1;
    }
}

proof fn lemma_find_nl_at(s: Seq<char>, m: int)
    requires
        0 <= m < s.len(),
        forall|k: int| 0 <= k < m ==> s[k] != '\n',
        s[m] == '\n',
    ensures
        find_nl(s) == m,
{
    lemma_find_nl_bounds(s);
    if find_nl(s) < m {
        assert(s[find_nl(s)] == '\n');
    }
}

proof fn lemma_find_nl_none(s: Seq<char>)
    requires
        forall|k: int| 0 <= k < s.len() ==> s[k] != '\n',
    ensures
        find_nl(s) == s.len(),
{
    lemma_find_nl_bounds(s);
}

/// A line-feed boundary after a newline-free prefix splits the corpus into
/// one line (the prefix, less a trailing carriage return) and the lines of
/// the remainder.
proof fn lemma_lines_step(cur: Seq<char>, rest: Seq<char>)
    requires
        forall|k: int| 0 <= k < cur.len() ==> cur[k] != '\n',
    ensures
        lines_spec(cur + seq!['\n'] + rest) == seq![strip_cr(cur)] + lines_spec(rest),
{
    let s = cur + seq!['\n'] + rest;
    assert(s[cur.len() as int] == '\n');
    lemma_find_nl_at(s, cur.len() as int);
    assert(s.subrange(0, cur.len() as int) =~= cur);
    assert(s.subrange(cur.len() as int + 1, s.len() as int) =~= rest);
}

/// A non-empty corpus without any line feed is a single line, kept as it
/// stands: no trailing carriage return is stripped at the end of input.
proof fn lemma_lines_final(cur: Seq<char>)
    requires
        cur.len() > 0,
        forall|k: int| 0 <= k < cur.len() ==> cur[k] != '\n',
    ensures
        lines_spec(cur) == seq![cur],
{
    lemma_find_nl_none(cur);
}

/// Splits a corpus into its lines: segments end at each line feed, a
/// carriage return directly before a line feed is stripped, and a final
/// segment without a trailing line feed is still a line.
fn split_lines(contents: &Vec<char>) -> (r: Vec<Vec<char>>)
    ensures
        r.deep_view() == lines_spec(contents@),
{
    let clen: usize = contents.len();
    let mut lines: Vec<Vec<char>> = Vec::new();
    let mut cur: Vec<char> = Vec::new();
    let mut i: usize = 0;
    proof {
        assert(cur@ + contents@.subrange(0, clen as int) =~= contents@);
        assert(lines.deep_view() + lines_spec(contents@) =~= lines_spec(contents@));
    }
    while i < clen
        invariant
            clen == contents@.len(),
            0 <= i <= clen,
            forall|k: int| 0 <= k < cur@.len() ==> cur@[k] != '\n',
            lines_spec(contents@) == lines.deep_view() + lines_spec(
                cur@ + contents@.subrange(i as int, clen as int),
            ),
        decreases clen - i,
    {
        let ghost prev_lines = lines.deep_view();
        let ghost prev_cur = cur@;
        let ghost rest = contents@.subrange(i + 1, clen as int);
        let c = contents[i];
        if c == '\n' {
            proof {
                assert(prev_cur + contents@.subrange(i as int, clen as int) =~= prev_cur
                    + seq!['\n'] + rest);
                lemma_lines_step(prev_cur, rest);
            }
            let mut line = cur;
            if line.len() > 0 && line[line.len() - 1] == '\r' {
                line.pop();
            }
            assert(line@ == strip_cr(prev_cur));
            lines.push(line);
            cur = Vec::new();
            assert(lines.deep_view() =~~= prev_lines.push(strip_cr(prev_cur)));
            assert(cur@ + rest =~= rest);
        } else {
            cur.push(c);
            assert(prev_cur + contents@.subrange(i as int, clen as int) =~= cur@ + rest);
        }
        i += 1;
    }
    assert(cur@ + contents@.subrange(clen as int, clen as int) =~= cur@);
    if cur.len() > 0 {
        proof {
            lemma_lines_final(cur@);
        }
        let ghost prev_lines = lines.deep_view();
        let ghost final_cur = cur@;
        lines.push(cur);
        assert(lines.deep_view() =~~= prev_lines.push(final_cur));
    } else {
        assert(lines_spec(cur@) == Seq::<Seq<char>>::empty());
    }
    assert(lines.deep_view() =~= lines_spec(contents@));
    lines
}

/// Returns the lines of `contents` that contain `query` as a contiguous,
/// case-sensitive substring, in their original order, each line kept
/// exactly as it stands in the corpus.
pub fn search(query: &str, contents: &str) -> (r: Vec<String>)
    ensures
        r.deep_view() == search_spec(query@, contents@),
{
    let q = chars_of(query);
    let cs = chars_of(contents);
    let lines = split_lines(&cs);
    let ghost pred = |line: Seq<char>| contains_seq(line, query@);
    let lines_len: usize = lines.len();
    let mut out: Vec<String> = Vec::new();
    let mut i: usize = 0;
    proof {
        broadcast use vstd::prelude::Seq::lemma_filter_push;

        assert(lines.deep_view().take(0).filter(pred) =~= Seq::<Seq<char>>::empty());
    }
    while i < lines_len
        invariant
            lines_len == lines@.len(),
            0 <= i <= lines_len,
            q@ == query@,
            lines.deep_view() == lines_spec(contents@),
            pred == (|line: Seq<char>| contains_seq(line, query@)),
            out.deep_view() == lines.deep_view().take(i as int).filter(pred),
        decreases lines_len - i,
    {
        let ghost prev_out = out.deep_view();
        proof {
            assert(lines@[i as int].deep_view() =~= lines@[i as int]@);
            assert(lines.deep_view()[i as int] == lines@[i as int].deep_view());
        }
        if contains_chars(&lines[i], &q) {
            out.push(string_from_chars(&lines[i]));
            assert(out.deep_view() =~~= prev_out.push(lines.deep_view()[i as int]));
        }
        proof {
            broadcast use vstd::prelude::Seq::lemma_filter_push;

            assert(lines.deep_view().take(i + 1) =~= lines.deep_view().take(i as int).push(
                lines.deep_view()[i as int],
            ));
        }
        i += 1;
    }
    proof {
        assert(lines.deep_view().take(lines_len as int) =~= lines.deep_view());
    }
    out
}

/// Returns the lines of `contents` that contain `query` up to ASCII case,
/// in their original order; the returned lines keep their original case.
pub fn search_case_intensive(query: &str, contents: &str) -> (r: Vec<String>)
    ensures
        r.deep_view() == search_ci_spec(query@, contents@),
{
    let q = chars_of(query);
    let lq = lower_vec(&q);
    let cs = chars_of(contents);
    let lines = split_lines(&cs);
    let ghost pred = |line: Seq<char>| contains_seq(lower_seq(line), lower_seq(query@));
    let lines_len: usize = lines.len();
    let mut out: Vec<String> = Vec::new();
    let mut i: usize = 0;
    proof {
        assert(lines.deep_view().take(0).filter(pred) =~= Seq::<Seq<char>>::empty());
    }
    while i < lines_len
        invariant
            lines_len == lines@.len(),
            0 <= i <= lines_len,
            lq@ == lower_seq(query@),
            lines.deep_view() == lines_spec(contents@),
            pred == (|line: Seq<char>| contains_seq(lower_seq(line), lower_seq(query@))),
            out.deep_view() == lines.deep_view().take(i as int).filter(pred),
        decreases lines_len - i,
    {
        let ghost prev_out = out.deep_view();
        proof {
            assert(lines@[i as int].deep_view() =~= lines@[i as int]@);
            assert(lines.deep_view()[i as int] == lines@[i as int].deep_view());
        }
        let lline = lower_vec(&lines[i]);
        if contains_chars(&lline, &lq) {
            out.push(string_from_chars(&lines[i]));
            assert(out.deep_view() =~~= prev_out.push(lines.deep_view()[i as int]));
        }
        proof {
            broadcast use vstd::prelude::Seq::lemma_filter_push;

            assert(lines.deep_view().take(i + 1) =~= lines.deep_view().take(i as int).push(
                lines.deep_view()[i as int],
            ));
        }
        i += 1;
    }
    proof {
        assert(lines.deep_view().take(lines_len as int) =~= lines.deep_view());
    }
    out
}

/// The matching lines of one configured invocation: `config.ignore_case`
/// selects the mode, the only branching between reading the corpus and
/// writing the results.
pub fn matching_lines(config: &Config, contents: &str) -> (r: Vec<String>)
    ensures
        r.deep_view() == if config.ignore_case {
            search_ci_spec(config.query@, contents@)
        } else {
            search_spec(config.query@, contents@)
        },
{
    if !config.ignore_case {
        search(config.query.as_str(), contents)
    } else {
        search_case_intensive(config.query.as_str(), contents)
    }
}

} // verus!
