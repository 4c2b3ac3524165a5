//! The command palette's matching and selection: a case-insensitive fuzzy score of a
//! query against one candidate label, the ranked candidate list the palette shows,
//! and the wrapping selection cursor over it.

use vstd::prelude::*;
use vstd::utf8::encode_utf8;
use crate::text::{
    lowercase, trim_seq, starts_with_seq, occurs_at, contains_seq, chars_of, trim,
    lower_chars, chars_eq, find_chars, starts_with_chars, string_of, views, all_ascii,
    ascii_upper_seq, lemma_ascii_upper_text,
};
use crate::order::{SortKey, KeyView, stable_order, before, key_views, is_permutation};
use crate::model::Host;
use crate::text::push_all;
use crate::secrets::copy_opt;

verus! {

/// How many matches the palette shows at once.
pub const MAX_RESULTS: usize = 30;

/// The UTF-8 length of a character sequence (what `str::len` reports).
pub open spec fn byte_len(s: Seq<char>) -> int {
    encode_utf8(s).len() as int
}

/// Greedy in-order matching of `q[j..]` against `c[i..]`: the index in `c` where the
/// last query character is matched, taking each query character at its first
/// occurrence after the previous match; `None` when `q[j..]` is not a subsequence.
pub open spec fn greedy_last(c: Seq<char>, q: Seq<char>, i: int, j: int) -> Option<int>
    decreases c.len() - i,
{
    if i < 0 || j < 0 || j >= q.len() || i >= c.len() {
        None
    } else if c[i] == q[j] {
        if j + 1 == q.len() {
            Some(i)
        } else {
            greedy_last(c, q, i + 1, j + 1)
        }
    } else {
        greedy_last(c, q, i + 1, j)
    }
}

/// The fuzzy score of `query` against `candidate`; `None` means no match.
///
/// A blank query matches everything with 0. Otherwise both sides are lower-cased and
/// each kind of match scores within a band of its own, so the kinds rank exact >
/// prefix > substring > subsequence whatever the candidate's length: an exact match
/// scores 1000; a prefix match `500 - len(candidate)` (251..=500, the length counted up
/// to 249); a substring match `250 - position` (101..=250, the position counted up to
/// 149); an in-order subsequence `100 - index of its last matched character` (1..=100,
/// the index counted up to 99). Lengths and positions count UTF-8 bytes except the
/// subsequence index, which counts characters.
pub open spec fn fuzzy_spec(query: Seq<char>, candidate: Seq<char>) -> Option<i32> {
    let t = trim_seq(query);
    if t.len() == 0 {
        Some(0)
    } else {
        let q = lowercase(t);
        let c = lowercase(candidate);
        if c == q {
            Some(1000)
        } else if starts_with_seq(c, q) {
            Some((500 - capped((byte_len(c) as usize) as int, 249)) as i32)
        } else if contains_seq(c, q) {
            let pos = choose|p: int|
                occurs_at(c, q, p) && forall|k: int| 0 <= k < p ==> !occurs_at(c, q, k);
            Some((250 - capped((byte_len(c.take(pos)) as usize) as int, 149)) as i32)
        } else {
            match greedy_last(c, q, 0, 0) {
                Some(ix) => Some((100 - capped(ix, 99)) as i32),
                None => None,
            }
        }
    }
}

/// `n`, counted up to `cap`.
pub open spec fn capped(n: int, cap: int) -> int {
    if n > cap {
        cap
    } else {
        n
    }
}

/// `n`, counted up to `cap`.
fn cap_at(n: usize, cap: usize) -> (r: usize)
    ensures
        r as int == capped(n as int, cap as int),
{
    if n > cap {
        cap
    } else {
        n
    }
}

/// The position of the first occurrence is unique.
proof fn lemma_first_occurrence_unique(c: Seq<char>, q: Seq<char>, p: int)
    requires
        occurs_at(c, q, p),
        forall|k: int| 0 <= k < p ==> !occurs_at(c, q, k),
    ensures
        (choose|x: int| occurs_at(c, q, x) && forall|k: int| 0 <= k < x ==> !occurs_at(c, q, k))
            == p,
{
    let x = choose|x: int| occurs_at(c, q, x) && forall|k: int| 0 <= k < x ==> !occurs_at(c, q, k);
    assert(occurs_at(c, q, x) && forall|k: int| 0 <= k < x ==> !occurs_at(c, q, k));
    if x < p {
        assert(!occurs_at(c, q, x));
    }
    if p < x {
        assert(!occurs_at(c, q, p));
    }
}

/// The index of the last matched character of the greedy in-order match of `q` in `c`.
fn greedy_subsequence(c: &Vec<char>, q: &Vec<char>) -> (r: Option<usize>)
    requires
        q@.len() > 0,
    ensures
        match r {
            Some(ix) => greedy_last(c@, q@, 0, 0) == Some(ix as int),
            None => greedy_last(c@, q@, 0, 0) is None,
        },
{
    let mut i: usize = 0;
    let mut j: usize = 0;
    while i < c.len()
        invariant
            i <= c@.len(),
            j < q@.len(),
            greedy_last(c@, q@, 0, 0) == greedy_last(c@, q@, i as int, j as int),
        decreases c.len() - i,
    {
        if c[i] == q[j] {
            if j == q.len() - 1 {
                return Some(i);
            }
            j = j + 1;
        }
        i = i + 1;
    }
    None
}

/// Case-insensitive fuzzy match of `query` against `candidate`. `None` means no
/// match; otherwise a higher score is a better match. An empty (or all-whitespace)
/// query matches everything with the same baseline score. Ranking, best first: exact
/// match > prefix match > substring match > in-order subsequence (denser spans score
/// higher).
pub fn fuzzy_score(query: &str, candidate: &str) -> (r: Option<i32>)
    ensures
        r == fuzzy_spec(query@, candidate@),
        trim_seq(query@).len() > 0 ==> {
            let kind = match_kind(query@, candidate@);
            &&& kind == 0 ==> r == Some(1000i32)
            &&& kind == 1 ==> (r matches Some(x) && 251 <= x <= 500)
            &&& kind == 2 ==> (r matches Some(x) && 101 <= x <= 250)
            &&& kind == 3 ==> (r matches Some(x) && 1 <= x <= 100)
            &&& kind == 4 ==> r is None
        },
{
    proof {
        if trim_seq(query@).len() > 0 {
            lemma_kind_bounds(query@, candidate@);
        }
    }
    let t = trim(query);
    if t.len() == 0 {
        return Some(0);
    }
    let ts = string_of(&t);
    let q = lower_chars(ts.as_str());
    let c_string = crate::text::to_lower(candidate);
    let c = chars_of(c_string.as_str());
    if chars_eq(&c, &q) {
        return Some(1000);
    }
    if starts_with_chars(&c, &q) {
        let l = c_string.as_str().len();
        assert(c_string@ == c@);
        let k = cap_at(l, 249);
        return Some(500 - k as i32);
    }
    match find_chars(&c, &q) {
        Some(pos) => {
            proof {
                lemma_first_occurrence_unique(c@, q@, pos as int);
            }
            let head = c_string.as_str().substring_char(0, pos);
            let l = head.len();
            assert(head@ == c@.take(pos as int));
            let k = cap_at(l, 149);
            Some(250 - k as i32)
        },
        None => {
            assert(q@.len() > 0) by {
                assert(lowercase(t@) == q@);
                if q@.len() == 0 {
                    assert(starts_with_seq(c@, q@)) by {
                        assert(c@.subrange(0, 0) =~= q@);
                    }
                }
            }
            match greedy_subsequence(&c, &q) {
                Some(ix) => {
                    let k = cap_at(ix, 99);
                    Some(100 - k as i32)
                },
                None => None,
            }
        },
    }
}

// ---- laws of the fuzzy score -----------------------------------------------------------

/// Which kind of match `query` makes against `candidate`: 0 exact, 1 prefix,
/// 2 substring, 3 in-order subsequence, 4 none (and 0 for a blank query).
pub open spec fn match_kind(query: Seq<char>, candidate: Seq<char>) -> int {
    let t = trim_seq(query);
    let q = lowercase(t);
    let c = lowercase(candidate);
    if t.len() == 0 || c == q {
        0
    } else if starts_with_seq(c, q) {
        1
    } else if contains_seq(c, q) {
        2
    } else if greedy_last(c, q, 0, 0) is Some {
        3
    } else {
        4
    }
}

proof fn lemma_encode_len_concat(a: Seq<char>, b: Seq<char>)
    ensures
        encode_utf8(a + b).len() == encode_utf8(a).len() + encode_utf8(b).len(),
    decreases a.len(),
{
    if a.len() > 0 {
        assert((a + b).drop_first() =~= a.drop_first() + b);
        lemma_encode_len_concat(a.drop_first(), b);
    } else {
        assert(a + b =~= b);
    }
}

proof fn lemma_encode_len_at_least(a: Seq<char>)
    ensures
        encode_utf8(a).len() >= a.len(),
    decreases a.len(),
{
    if a.len() > 0 {
        lemma_encode_len_at_least(a.drop_first());
    }
}

proof fn lemma_greedy_in_range(c: Seq<char>, q: Seq<char>, i: int, j: int)
    ensures
        greedy_last(c, q, i, j) matches Some(ix) ==> i <= ix < c.len(),
    decreases c.len() - i,
{
    if !(i < 0 || j < 0 || j >= q.len() || i >= c.len()) {
        lemma_greedy_in_range(c, q, i + 1, j + 1);
        lemma_greedy_in_range(c, q, i + 1, j);
    }
}

/// The score each kind of match earns, whatever the candidate's length: exact 1000,
/// prefix 251..=500, substring 101..=250, subsequence 1..=100.
pub proof fn lemma_kind_bounds(query: Seq<char>, candidate: Seq<char>)
    requires
        trim_seq(query).len() > 0,
    ensures
        match_kind(query, candidate) == 0 ==> fuzzy_spec(query, candidate) == Some(1000i32),
        match_kind(query, candidate) == 1 ==> 251 <= fuzzy_spec(query, candidate)->0 <= 500,
        match_kind(query, candidate) == 2 ==> 101 <= fuzzy_spec(query, candidate)->0 <= 250,
        match_kind(query, candidate) == 3 ==> 1 <= fuzzy_spec(query, candidate)->0 <= 100,
        match_kind(query, candidate) <= 3 <==> fuzzy_spec(query, candidate) is Some,
{
    let q = lowercase(trim_seq(query));
    let c = lowercase(candidate);
    if match_kind(query, candidate) == 3 {
        lemma_greedy_in_range(c, q, 0, 0);
    }
}

/// Some least index at or below `w` where `q` occurs in `c`.
proof fn lemma_least_occurrence(c: Seq<char>, q: Seq<char>, w: int)
    requires
        occurs_at(c, q, w),
    ensures
        exists|p: int| occurs_at(c, q, p) && forall|k: int| 0 <= k < p ==> !occurs_at(c, q, k),
    decreases w,
{
    if exists|k: int| 0 <= k < w && occurs_at(c, q, k) {
        let k = choose|k: int| 0 <= k < w && occurs_at(c, q, k);
        lemma_least_occurrence(c, q, k);
    } else {
        assert(forall|k: int| 0 <= k < w ==> !occurs_at(c, q, k));
    }
}

/// Matching ignores case and surrounding whitespace in the query: two non-blank
/// queries whose trimmed, lower-cased forms agree score every candidate alike.
pub proof fn law_query_case_insensitive(q1: Seq<char>, q2: Seq<char>, candidate: Seq<char>)
    requires
        trim_seq(q1).len() > 0,
        trim_seq(q2).len() > 0,
        lowercase(trim_seq(q1)) == lowercase(trim_seq(q2)),
    ensures
        fuzzy_spec(q1, candidate) == fuzzy_spec(q2, candidate),
{
}

/// Matching ignores case on ASCII text: upper-casing an ASCII query, or an ASCII
/// candidate, changes no score (e.g. `DATABASE` scores `database` as `database` does).
pub proof fn law_ascii_case_is_ignored(query: Seq<char>, candidate: Seq<char>)
    requires
        all_ascii(query),
        all_ascii(candidate),
    ensures
        fuzzy_spec(ascii_upper_seq(query), candidate) == fuzzy_spec(query, candidate),
        fuzzy_spec(query, ascii_upper_seq(candidate)) == fuzzy_spec(query, candidate),
{
    lemma_ascii_upper_text(query);
    lemma_ascii_upper_text(candidate);
    let t = trim_seq(query);
    lemma_ascii_upper_text(t);
    assert(trim_seq(ascii_upper_seq(query)).len() == t.len());
}

/// An empty or all-whitespace query matches every candidate with the same baseline
/// score, 0.
pub proof fn law_blank_query_matches_everything(query: Seq<char>, candidate: Seq<char>)
    requires
        forall|k: int| 0 <= k < query.len() ==> crate::text::is_white(#[trigger] query[k]),
    ensures
        fuzzy_spec(query, candidate) == Some(0i32),
{
    crate::text::lemma_trim_empty(query);
}

/// Ranking, best first: against one candidate, an exact match outscores a prefix
/// match, which outscores a substring match, which outscores an in-order
/// subsequence, whatever the candidate's length; a query that matches in none of
/// these ways scores `None`.
pub proof fn law_match_kind_ranking(qa: Seq<char>, qb: Seq<char>, candidate: Seq<char>)
    requires
        trim_seq(qa).len() > 0,
        trim_seq(qb).len() > 0,
        match_kind(qa, candidate) < match_kind(qb, candidate),
    ensures
        fuzzy_spec(qa, candidate) is Some,
        match_kind(qb, candidate) <= 3 ==> fuzzy_spec(qa, candidate)->0 > fuzzy_spec(
            qb,
            candidate,
        )->0,
        match_kind(qb, candidate) == 4 ==> fuzzy_spec(qb, candidate) is None,
{
    lemma_kind_bounds(qa, candidate);
    lemma_kind_bounds(qb, candidate);
}

/// Ranking, best first, across candidates: for one non-blank query, a candidate it
/// matches exactly outscores one it prefixes, which outscores one it occurs in, which
/// outscores one it matches only as a scattered subsequence — whatever the
/// candidates' lengths and positions.
pub proof fn law_candidates_rank_by_kind(query: Seq<char>, ca: Seq<char>, cb: Seq<char>)
    requires
        trim_seq(query).len() > 0,
        match_kind(query, ca) < match_kind(query, cb),
        match_kind(query, cb) <= 3,
    ensures
        fuzzy_spec(query, ca) is Some && fuzzy_spec(query, cb) is Some,
        fuzzy_spec(query, ca)->0 > fuzzy_spec(query, cb)->0,
{
    lemma_kind_bounds(query, ca);
    lemma_kind_bounds(query, cb);
}

// ---- the ranked candidate list ------------------------------------------------------

/// One palette row: which candidate (an index into the candidate labels) and its
/// score.
#[derive(Clone, Copy, Debug, PartialEq, Eq)]
pub struct PaletteMatch {
    pub index: usize,
    pub score: i32,
}

/// Row `a` is shown above row `b`: a higher score, or an equal score and an earlier
/// candidate.
pub open spec fn ranks_above(a: PaletteMatch, b: PaletteMatch) -> bool {
    a.score > b.score || (a.score == b.score && a.index < b.index)
}

/// The sort rank that orders higher scores first.
fn score_rank(score: i32) -> (r: u64)
    ensures
        r as int == 2147483647 - score as int,
{
    (2147483647i64 - score as i64) as u64
}

/// The palette's rows for `query` over `labels` (actions, then connections, then
/// sessions, in the order they are offered): every label that matches, best score
/// first, ties in offering order, at most [`MAX_RESULTS`] of them.
pub open spec fn ranked(query: Seq<char>, labels: Seq<Seq<char>>, out: Seq<PaletteMatch>) -> bool {
    &&& out.len() <= MAX_RESULTS
    &&& forall|i: int|
        0 <= i < out.len() ==> (#[trigger] out[i]).index < labels.len() && fuzzy_spec(
            query,
            labels[out[i].index as int],
        ) == Some(out[i].score)
    &&& forall|i: int, j: int| 0 <= i < j < out.len() ==> ranks_above(out[i], out[j])
    &&& forall|ix: int|
        0 <= ix < labels.len() && #[trigger] fuzzy_spec(query, labels[ix]) is Some ==> (exists|
            i: int,
        | 0 <= i < out.len() && out[i].index == ix) || (out.len() == MAX_RESULTS && ranks_above(
            out[MAX_RESULTS - 1],
            PaletteMatch { index: ix as usize, score: fuzzy_spec(query, labels[ix])->0 },
        ))
}

/// The palette's rows for `query` over `labels`, as [`ranked`] says.
pub fn rank_candidates(query: &str, labels: &Vec<String>) -> (out: Vec<PaletteMatch>)
    ensures
        ranked(query@, views(labels@), out@),
{
    // every match, in offering order
    let mut found: Vec<PaletteMatch> = Vec::new();
    let mut keys: Vec<SortKey> = Vec::new();
    let mut i: usize = 0;
    while i < labels.len()
        invariant
            i <= labels.len(),
            found.len() == keys.len(),
            forall|k: int|
                0 <= k < found.len() ==> (#[trigger] found[k]).index < i && fuzzy_spec(
                    query@,
                    labels[found[k].index as int]@,
                ) == Some(found[k].score) && keys[k]@ == (KeyView {
                    rank: 2147483647 - found[k].score as int,
                    text: Seq::<char>::empty(),
                }),
            forall|k: int, l: int| 0 <= k < l < found.len() ==> found[k].index < found[l].index,
            forall|ix: int|
                0 <= ix < i && #[trigger] fuzzy_spec(query@, labels[ix]@) is Some ==> exists|
                    k: int,
                | 0 <= k < found.len() && found[k].index == ix,
        decreases labels.len() - i,
    {
        match fuzzy_score(query, labels[i].as_str()) {
            Some(score) => {
                let ghost before_found = found@;
                found.push(PaletteMatch { index: i, score });
                keys.push(SortKey { rank: score_rank(score), text: Vec::new() });
                proof {
                    assert(found@[found@.len() - 1].index == i);
                    assert forall|ix: int|
                        0 <= ix < i + 1 && #[trigger] fuzzy_spec(query@, labels[ix]@) is Some
                        implies exists|k: int| 0 <= k < found.len() && found[k].index == ix by {
                        if ix < i {
                            let k = choose|k: int|
                                0 <= k < before_found.len() && before_found[k].index == ix;
                            assert(found@[k] == before_found[k]);
                        } else {
                            assert(found@[found@.len() - 1].index == ix);
                        }
                    }
                }
            },
            None => {},
        }
        i = i + 1;
    }
    let p = stable_order(&keys, false);
    let ghost kv = key_views(keys@);
    let n = if p.len() < MAX_RESULTS {
        p.len()
    } else {
        MAX_RESULTS
    };
    let mut out: Vec<PaletteMatch> = Vec::new();
    let mut u: usize = 0;
    while u < n
        invariant
            u <= n,
            n <= p.len(),
            n <= MAX_RESULTS,
            p.len() == found.len(),
            found.len() == keys.len(),
            kv == key_views(keys@),
            is_permutation(p@, keys@.len() as int),
            out.len() == u,
            forall|k: int| 0 <= k < u ==> out[k] == found[p[k] as int],
        decreases n - u,
    {
        out.push(found[p[u]]);
        u = u + 1;
    }
    proof {
        // the order of two shown rows comes from the sorted permutation
        assert forall|a: int, b: int| 0 <= a < b < found.len() implies #[trigger] before(
            kv,
            false,
            a,
            b,
        ) == ranks_above(found[a], found[b]) by {
            assert(kv[a] == keys[a]@);
            assert(kv[b] == keys[b]@);
        }
        assert forall|a: int, b: int| 0 <= a < found.len() && 0 <= b < found.len() && a != b
            implies #[trigger] before(kv, false, a, b) == ranks_above(found[a], found[b]) by {
            assert(kv[a] == keys[a]@);
            assert(kv[b] == keys[b]@);
            if b < a {
                assert(found[b].index < found[a].index);
            }
        }
        assert forall|x: int, y: int| 0 <= x < y < out.len() implies ranks_above(
            out[x],
            out[y],
        ) by {
            assert(before(kv, false, p[x] as int, p[y] as int));
            assert(p[x] != p[y]);
        }
        assert forall|ix: int|
            0 <= ix < labels.len() && #[trigger] fuzzy_spec(query@, labels[ix]@) is Some
            implies (exists|i: int| 0 <= i < out.len() && out[i].index == ix) || (out.len()
            == MAX_RESULTS && ranks_above(
            out[MAX_RESULTS - 1],
            PaletteMatch { index: ix as usize, score: fuzzy_spec(query@, labels[ix]@)->0 },
        )) by {
            let t = choose|k: int| 0 <= k < found.len() && found[k].index == ix;
            assert(crate::order::covers(p@, keys@.len() as int, t));
            let w = choose|w: int| 0 <= w < keys@.len() && p@[w] == t;
            if w < n {
                assert(out[w] == found[t]);
            } else {
                assert(n == MAX_RESULTS);
                assert(before(kv, false, p[MAX_RESULTS - 1] as int, p[w] as int));
                assert(p[MAX_RESULTS - 1] != p[w]);
                assert(out[MAX_RESULTS - 1] == found[p[MAX_RESULTS - 1] as int]);
                assert(found[t] == PaletteMatch {
                    index: ix as usize,
                    score: fuzzy_spec(query@, labels[ix]@)->0,
                });
            }
        }
        let lv = views(labels@);
        assert forall|k: int| 0 <= k < labels.len() implies lv[k] == labels[k]@ by {}
        assert forall|ix: int|
            0 <= ix < lv.len() && #[trigger] fuzzy_spec(query@, lv[ix]) is Some implies (exists|
                i: int,
            | 0 <= i < out.len() && out[i].index == ix) || (out.len() == MAX_RESULTS
                && ranks_above(
                out[MAX_RESULTS - 1],
                PaletteMatch { index: ix as usize, score: fuzzy_spec(query@, lv[ix])->0 },
            )) by {
            assert(lv[ix] == labels[ix]@);
            assert(fuzzy_spec(query@, labels[ix]@) is Some);
        }
    }
    out
}

// ---- the selection cursor ------------------------------------------------------------

/// The row a stored selection points at once clamped to a list of `len` rows:
/// `None` on an empty list.
pub fn selected_index(selection: usize, len: usize) -> (r: Option<usize>)
    ensures
        len == 0 ==> r is None,
        len > 0 ==> r == Some(if selection < len { selection } else { (len - 1) as usize }),
{
    if len == 0 {
        None
    } else if selection < len {
        Some(selection)
    } else {
        Some(len - 1)
    }
}

/// Move the selection by `delta` over `len` rows, wrapping at both ends; the stored
/// selection is clamped to the list first. An empty list leaves it unchanged.
pub fn move_selection(selection: usize, delta: i32, len: usize) -> (r: usize)
    requires
        len <= i32::MAX,
        len > 0 ==> (if selection < len { selection as int } else { len - 1 }) + delta <= i32::MAX,
    ensures
        len == 0 ==> r == selection,
        len > 0 ==> r as int == ((if selection < len { selection as int } else { len - 1 })
            + delta) % (len as int),
{
    if len == 0 {
        return selection;
    }
    let current: i64 = if selection < len {
        selection as i64
    } else {
        (len - 1) as i64
    };
    let l: i64 = len as i64;
    let sum: i64 = current + delta as i64;
    // shift into the non-negative range by a multiple of `l`, which leaves the
    // remainder unchanged
    let shifted: i64 = sum + l * 2147483648i64;
    assert(shifted >= 0) by (nonlinear_arith)
        requires
            l >= 1,
            sum >= -2147483648,
            shifted == sum + l * 2147483648,
    ;
    let r: i64 = shifted % l;
    proof {
        vstd::arithmetic::div_mod::lemma_mod_multiples_vanish(
            2147483648,
            sum as int,
            l as int,
        );
        assert(l * 2147483648 == 2147483648 * l) by (nonlinear_arith);
    }
    r as usize
}

// ---- the palette's rows and state ----------------------------------------------------

/// What confirming a row does: run action `n` of the offered actions, connect to
/// saved connection `n`, or activate session tab `n`.
#[derive(Clone, Copy, Debug, PartialEq, Eq, Structural)]
pub enum PaletteTarget {
    Action(usize),
    Connection(usize),
    Session(usize),
}

/// One shown row: what it does, its label, subtitle and shortcut, and its score.
#[derive(Debug, PartialEq, Eq)]
pub struct PaletteEntry {
    pub target: PaletteTarget,
    pub label: String,
    pub subtitle: Option<String>,
    pub shortcut: Option<String>,
    pub score: i32,
}

/// The label of candidate `k`: the actions' labels, then the saved connections'
/// aliases, then the session tabs' labels.
pub open spec fn candidate_label(
    actions: Seq<(String, Option<String>)>,
    hosts: Seq<Host>,
    sessions: Seq<String>,
    k: int,
) -> Seq<char> {
    if k < actions.len() {
        actions[k].0@
    } else if k < actions.len() + hosts.len() {
        hosts[k - actions.len()].alias@
    } else {
        sessions[k - actions.len() - hosts.len()]@
    }
}

/// Every candidate's label, in offering order.
pub open spec fn candidate_labels(
    actions: Seq<(String, Option<String>)>,
    hosts: Seq<Host>,
    sessions: Seq<String>,
) -> Seq<Seq<char>> {
    Seq::new(
        actions.len() + hosts.len() + sessions.len(),
        |k: int| candidate_label(actions, hosts, sessions, k),
    )
}

/// The row candidate `k` makes with `score`: an action shows its shortcut; a saved
/// connection is subtitled `connect — user@host`; a session tab `open session tab`.
pub open spec fn entry_of(
    e: PaletteEntry,
    actions: Seq<(String, Option<String>)>,
    hosts: Seq<Host>,
    sessions: Seq<String>,
    m: PaletteMatch,
) -> bool {
    let k = m.index as int;
    let na = actions.len();
    let nh = hosts.len();
    &&& e.score == m.score
    &&& e.label@ == candidate_label(actions, hosts, sessions, k)
    &&& if k < na {
        e.target == PaletteTarget::Action(m.index) && e.subtitle is None && name_of(e.shortcut)
            == name_of(actions[k].1)
    } else if k < na + nh {
        let h = hosts[k - na];
        e.target == PaletteTarget::Connection((k - na) as usize) && e.shortcut is None && name_of(
            e.subtitle,
        ) == Some("connect — "@ + h.user@ + "@"@ + h.host@)
    } else {
        e.target == PaletteTarget::Session((k - na - nh) as usize) && e.shortcut is None
            && name_of(e.subtitle) == Some("open session tab"@)
    }
}

/// The characters of an optional text.
pub open spec fn name_of(o: Option<String>) -> Option<Seq<char>> {
    match o {
        Some(s) => Some(s@),
        None => None,
    }
}

/// The palette's rows for `query`: the candidates — `actions` (label and shortcut),
/// then the saved connections `hosts` (by alias), then the session tabs `sessions` —
/// ranked as [`ranked`] says, each made into its row as [`entry_of`] says.
pub fn palette_entries(
    query: &str,
    actions: &Vec<(String, Option<String>)>,
    hosts: &Vec<Host>,
    sessions: &Vec<String>,
) -> (out: Vec<PaletteEntry>)
    requires
        actions.len() + hosts.len() + sessions.len() <= usize::MAX,
    ensures
        exists|m: Seq<PaletteMatch>|
            ranked(query@, candidate_labels(actions@, hosts@, sessions@), m) && m.len() == out@.len()
                && forall|i: int|
                0 <= i < m.len() ==> entry_of(
                    #[trigger] out@[i],
                    actions@,
                    hosts@,
                    sessions@,
                    m[i],
                ),
{
    let ghost want = candidate_labels(actions@, hosts@, sessions@);
    let mut labels: Vec<String> = Vec::new();
    let mut i: usize = 0;
    while i < actions.len()
        invariant
            i <= actions.len(),
            views(labels@) == want.take(i as int),
            want == candidate_labels(actions@, hosts@, sessions@),
        decreases actions.len() - i,
    {
        let ghost b = labels@;
        labels.push(actions[i].0.clone());
        assert(views(labels@) =~= views(b).push(actions@[i as int].0@));
        i = i + 1;
        assert(want.take(i as int) =~= want.take(i - 1).push(want[i - 1]));
    }
    let na = actions.len();
    let mut j: usize = 0;
    while j < hosts.len()
        invariant
            j <= hosts.len(),
            na == actions.len(),
            views(labels@) == want.take(na + j),
            want == candidate_labels(actions@, hosts@, sessions@),
        decreases hosts.len() - j,
    {
        let ghost b = labels@;
        labels.push(hosts[j].alias.clone());
        assert(views(labels@) =~= views(b).push(hosts@[j as int].alias@));
        j = j + 1;
        assert(want.take(na + j) =~= want.take(na + j - 1).push(want[na + j - 1]));
    }
    let mut k: usize = 0;
    while k < sessions.len()
        invariant
            k <= sessions.len(),
            na == actions.len(),
            views(labels@) == want.take(na + hosts.len() + k),
            want == candidate_labels(actions@, hosts@, sessions@),
        decreases sessions.len() - k,
    {
        let ghost b = labels@;
        labels.push(sessions[k].clone());
        assert(views(labels@) =~= views(b).push(sessions@[k as int]@));
        k = k + 1;
        assert(want.take(na + hosts.len() + k) =~= want.take(na + hosts.len() + k - 1).push(
            want[na + hosts.len() + k - 1],
        ));
    }
    assert(want.take(want.len() as int) =~= want);
    let ranks = rank_candidates(query, &labels);
    let mut out: Vec<PaletteEntry> = Vec::new();
    let mut u: usize = 0;
    while u < ranks.len()
        invariant
            u <= ranks.len(),
            na == actions.len(),
            actions.len() + hosts.len() + sessions.len() <= usize::MAX,
            views(labels@) == want,
            want == candidate_labels(actions@, hosts@, sessions@),
            ranked(query@, want, ranks@),
            out@.len() == u,
            forall|x: int|
                0 <= x < u ==> entry_of(#[trigger] out@[x], actions@, hosts@, sessions@, ranks@[x]),
        decreases ranks.len() - u,
    {
        let m = ranks[u];
        assert(m.index < want.len());
        let idx = m.index;
        let entry = if idx < na {
            PaletteEntry {
                target: PaletteTarget::Action(idx),
                label: actions[idx].0.clone(),
                subtitle: None,
                shortcut: copy_opt(&actions[idx].1),
                score: m.score,
            }
        } else if idx < na + hosts.len() {
            let h = &hosts[idx - na];
            let mut sub = String::from_str("connect — ");
            push_all(&mut sub, &chars_of(h.user.as_str()));
            push_all(&mut sub, &chars_of("@"));
            push_all(&mut sub, &chars_of(h.host.as_str()));
            PaletteEntry {
                target: PaletteTarget::Connection(idx - na),
                label: h.alias.clone(),
                subtitle: Some(sub),
                shortcut: None,
                score: m.score,
            }
        } else {
            PaletteEntry {
                target: PaletteTarget::Session(idx - na - hosts.len()),
                label: sessions[idx - na - hosts.len()].clone(),
                subtitle: Some(String::from_str("open session tab")),
                shortcut: None,
                score: m.score,
            }
        };
        out.push(entry);
        u = u + 1;
    }
    out
}

/// The open palette: its query text and the stored selection (clamped against the
/// live rows wherever it is read).
#[derive(Debug, PartialEq, Eq)]
pub struct PaletteState {
    pub query: String,
    pub selection: usize,
}

/// `Ctrl+K`: close an open palette; open an empty one, unless another modal owns the
/// keyboard (then nothing changes).
pub fn toggle_palette(palette: &mut Option<PaletteState>, blocking_modal_open: bool)
    ensures
        *old(palette) is Some ==> *final(palette) is None,
        *old(palette) is None && blocking_modal_open ==> *final(palette) is None,
        *old(palette) is None && !blocking_modal_open ==> (*final(palette) matches Some(p)
            && p.query@.len() == 0 && p.selection == 0),
{
    if palette.is_some() {
        *palette = None;
    } else if !blocking_modal_open {
        *palette = Some(PaletteState { query: String::new(), selection: 0 });
    }
}

/// Close the palette; says whether it was open.
pub fn close_palette(palette: &mut Option<PaletteState>) -> (was_open: bool)
    ensures
        was_open == *old(palette) is Some,
        *final(palette) is None,
{
    let was_open = palette.is_some();
    *palette = None;
    was_open
}

impl PaletteState {
    /// Move the selection by `delta` over `len` rows, wrapping ([`move_selection`]); no
    /// rows leaves it alone.
    pub fn move_by(&mut self, delta: i32, len: usize)
        requires
            len <= i32::MAX,
            len > 0 ==> (if old(self).selection < len {
                old(self).selection as int
            } else {
                len - 1
            }) + delta <= i32::MAX,
        ensures
            final(self).query == old(self).query,
            len == 0 ==> final(self).selection == old(self).selection,
            len > 0 ==> final(self).selection as int == ((if old(self).selection < len {
                old(self).selection as int
            } else {
                len - 1
            }) + delta) % (len as int),
    {
        self.selection = move_selection(self.selection, delta, len);
    }

    /// What confirming does: the target of the selected row (clamped to the list), or
    /// nothing when no row matches.
    pub fn selected_target(&self, entries: &Vec<PaletteEntry>) -> (r: Option<PaletteTarget>)
        ensures
            entries@.len() == 0 ==> r is None,
            entries@.len() > 0 ==> r == Some(
                entries@[if self.selection < entries@.len() {
                    self.selection as int
                } else {
                    entries@.len() - 1
                }].target,
            ),
    {
        match selected_index(self.selection, entries.len()) {
            Some(i) => Some(entries[i].target),
            None => None,
        }
    }
}

} // verus!
