//! Orderings the tables sort by: code-point order on strings (the order `str`'s `Ord`
//! gives, since UTF-8 preserves it), a two-part sort key, and a stable sort of row
//! indices by such keys. Comparisons are computed as signs (`-1`, `0`, `1`) and
//! turned into `Ordering` at the edge.

use std::cmp::Ordering;
use vstd::prelude::*;

verus! {

/// The `Ordering` a sign stands for: negative is `Less`, zero `Equal`, positive
/// `Greater`.
pub open spec fn ordering_of(s: int) -> Ordering {
    if s < 0 {
        Ordering::Less
    } else if s == 0 {
        Ordering::Equal
    } else {
        Ordering::Greater
    }
}

/// The opposite ordering (`Ordering::reverse`).
pub open spec fn flip(o: Ordering) -> Ordering {
    match o {
        Ordering::Less => Ordering::Greater,
        Ordering::Equal => Ordering::Equal,
        Ordering::Greater => Ordering::Less,
    }
}

/// `Ordering::reverse`.
pub fn reverse(o: Ordering) -> (r: Ordering)
    ensures
        r == flip(o),
{
    match o {
        Ordering::Less => Ordering::Greater,
        Ordering::Equal => Ordering::Equal,
        Ordering::Greater => Ordering::Less,
    }
}

/// A sign held in an `i8`, as an integer.
pub open spec fn sign_int(s: i8) -> int {
    s as int
}

/// The `Ordering` for a sign.
pub fn to_ordering(s: i8) -> (r: Ordering)
    ensures
        r == ordering_of(sign_int(s)),
{
    if s < 0 {
        Ordering::Less
    } else if s == 0 {
        Ordering::Equal
    } else {
        Ordering::Greater
    }
}

/// The sign of `a - b`.
pub open spec fn int_sign(a: int, b: int) -> int {
    if a < b {
        -1
    } else if a == b {
        0
    } else {
        1
    }
}

/// Code-point order on two character sequences, as a sign: the first differing
/// character decides, and a proper prefix comes first.
pub open spec fn lex_sign(a: Seq<char>, b: Seq<char>) -> int
    decreases a.len(),
{
    if a.len() == 0 {
        if b.len() == 0 {
            0
        } else {
            -1
        }
    } else if b.len() == 0 {
        1
    } else if a[0] < b[0] {
        -1
    } else if a[0] > b[0] {
        1
    } else {
        lex_sign(a.drop_first(), b.drop_first())
    }
}

/// Swapping the arguments negates the sign.
pub proof fn lemma_lex_flip(a: Seq<char>, b: Seq<char>)
    ensures
        lex_sign(b, a) == -lex_sign(a, b),
        -1 <= lex_sign(a, b) <= 1,
    decreases a.len(),
{
    if a.len() > 0 && b.len() > 0 && a[0] == b[0] {
        lemma_lex_flip(a.drop_first(), b.drop_first());
    }
}

/// Only equal sequences have sign zero.
pub proof fn lemma_lex_equal(a: Seq<char>, b: Seq<char>)
    ensures
        (lex_sign(a, b) == 0) <==> (a == b),
    decreases a.len(),
{
    if a.len() > 0 && b.len() > 0 {
        if a[0] == b[0] {
            lemma_lex_equal(a.drop_first(), b.drop_first());
            if a.drop_first() == b.drop_first() {
                assert(a =~= seq![a[0]] + a.drop_first());
                assert(b =~= seq![b[0]] + b.drop_first());
            }
            if a == b {
                assert(a.drop_first() =~= b.drop_first());
            }
        } else {
            assert(a != b);
        }
    } else if a.len() != b.len() {
        assert(a != b);
    } else {
        assert(a =~= b);
    }
}

/// Strictly-before is transitive.
pub proof fn lemma_lex_trans(a: Seq<char>, b: Seq<char>, c: Seq<char>)
    requires
        lex_sign(a, b) < 0,
        lex_sign(b, c) < 0,
    ensures
        lex_sign(a, c) < 0,
    decreases a.len(),
{
    if a.len() > 0 && b.len() > 0 && c.len() > 0 && a[0] == b[0] && b[0] == c[0] {
        lemma_lex_trans(a.drop_first(), b.drop_first(), c.drop_first());
    }
}

/// The code-point order of two character vectors, as a sign.
pub fn lex_sign_chars(a: &Vec<char>, b: &Vec<char>) -> (r: i8)
    ensures
        r as int == lex_sign(a@, b@),
{
    let mut i: usize = 0;
    assert(a@.skip(0) =~= a@);
    assert(b@.skip(0) =~= b@);
    while i < a.len() && i < b.len()
        invariant
            i <= a.len(),
            i <= b.len(),
            lex_sign(a@, b@) == lex_sign(a@.skip(i as int), b@.skip(i as int)),
        decreases a.len() - i,
    {
        let x = a[i];
        let y = b[i];
        assert(a@.skip(i as int)[0] == x);
        assert(b@.skip(i as int)[0] == y);
        if x < y {
            return -1;
        }
        if x > y {
            return 1;
        }
        assert(a@.skip(i as int).drop_first() =~= a@.skip(i + 1));
        assert(b@.skip(i as int).drop_first() =~= b@.skip(i + 1));
        i = i + 1;
    }
    if i < a.len() {
        1
    } else if i < b.len() {
        -1
    } else {
        0
    }
}

// ---- a two-part sort key -------------------------------------------------------------

/// A row's sort key: a number compared first, then text in code-point order. Every
/// column the tables sort by fits this shape (a plain number, a plain text, or a rank
/// with a text that breaks its ties).
pub struct SortKey {
    pub rank: u64,
    pub text: Vec<char>,
}

/// What a sort key means: its rank and its text.
pub struct KeyView {
    pub rank: int,
    pub text: Seq<char>,
}

impl View for SortKey {
    type V = KeyView;

    open spec fn view(&self) -> KeyView {
        KeyView { rank: self.rank as int, text: self.text@ }
    }
}

/// Rank first, then text, as a sign.
pub open spec fn key_sign(a: KeyView, b: KeyView) -> int {
    if a.rank < b.rank {
        -1
    } else if a.rank > b.rank {
        1
    } else {
        lex_sign(a.text, b.text)
    }
}

/// Key order, or its reverse when `desc`, as a sign.
pub open spec fn dir_sign(a: KeyView, b: KeyView, desc: bool) -> int {
    if desc {
        -key_sign(a, b)
    } else {
        key_sign(a, b)
    }
}

/// The sign of the key comparison.
pub fn key_sign_exec(a: &SortKey, b: &SortKey) -> (r: i8)
    ensures
        r as int == key_sign(a@, b@),
{
    if a.rank < b.rank {
        -1
    } else if a.rank > b.rank {
        1
    } else {
        lex_sign_chars(&a.text, &b.text)
    }
}

/// Key order is a total order: swapping negates it, zero means equal keys, and it
/// is transitive.
pub proof fn lemma_key_total(a: KeyView, b: KeyView, c: KeyView)
    ensures
        key_sign(b, a) == -key_sign(a, b),
        -1 <= key_sign(a, b) <= 1,
        (key_sign(a, b) == 0) <==> (a.rank == b.rank && a.text == b.text),
        key_sign(a, b) < 0 && key_sign(b, c) < 0 ==> key_sign(a, c) < 0,
{
    lemma_lex_flip(a.text, b.text);
    lemma_lex_equal(a.text, b.text);
    if a.rank == b.rank && b.rank == c.rank && lex_sign(a.text, b.text) < 0 && lex_sign(b.text, c.text) < 0 {
        lemma_lex_trans(a.text, b.text, c.text);
    }
}

// ---- stable sort of row indices ------------------------------------------------------

/// Row `x` goes before row `y`: its key orders first, or the keys tie and `x` came
/// first in the input. A strict total order on distinct row indices.
pub open spec fn before(keys: Seq<KeyView>, desc: bool, x: int, y: int) -> bool {
    let o = dir_sign(keys[x], keys[y], desc);
    o < 0 || (o == 0 && x < y)
}

/// `p` lists every index of `0..n` exactly once.
pub open spec fn is_permutation(p: Seq<usize>, n: int) -> bool {
    &&& p.len() == n
    &&& forall|i: int| 0 <= i < n ==> #[trigger] p[i] < n
    &&& forall|i: int, j: int| 0 <= i < j < n ==> p[i] != p[j]
    &&& forall|t: int| 0 <= t < n ==> #[trigger] covers(p, n, t)
}

/// Index `t` appears among the first `n` entries of `p`.
pub open spec fn covers(p: Seq<usize>, n: int, t: int) -> bool {
    exists|u: int| 0 <= u < n && p[u] == t
}

/// `p` is sorted by `before`: stably ordered by the keys.
pub open spec fn sorted_by_keys(p: Seq<usize>, keys: Seq<KeyView>, desc: bool) -> bool {
    forall|i: int, j: int|
        0 <= i < j < p.len() ==> before(keys, desc, #[trigger] p[i] as int, #[trigger] p[j] as int)
}

proof fn lemma_before_total(keys: Seq<KeyView>, desc: bool, x: int, y: int, z: int)
    requires
        0 <= x < keys.len(),
        0 <= y < keys.len(),
        0 <= z < keys.len(),
    ensures
        x != y ==> (before(keys, desc, x, y) <==> !before(keys, desc, y, x)),
        before(keys, desc, x, y) && before(keys, desc, y, z) ==> before(keys, desc, x, z),
{
    lemma_key_total(keys[x], keys[y], keys[z]);
    lemma_key_total(keys[y], keys[x], keys[z]);
    lemma_key_total(keys[z], keys[y], keys[x]);
    lemma_key_total(keys[x], keys[z], keys[y]);
    lemma_key_total(keys[y], keys[z], keys[x]);
    lemma_key_total(keys[z], keys[x], keys[y]);
    if before(keys, desc, x, y) && before(keys, desc, y, z) {
        let ox = dir_sign(keys[x], keys[y], desc);
        let oy = dir_sign(keys[y], keys[z], desc);
        if ox == 0 && oy == 0 {
            assert(keys[x].rank == keys[y].rank && keys[x].text == keys[y].text);
            assert(keys[y].rank == keys[z].rank && keys[y].text == keys[z].text);
            assert(key_sign(keys[x], keys[z]) == 0);
        }
    }
}

/// The views of a key vector.
pub open spec fn key_views(keys: Seq<SortKey>) -> Seq<KeyView> {
    keys.map_values(|k: SortKey| k@)
}

/// Whether row `x`'s key orders strictly first (reversed when `desc`).
fn key_strictly_first(keys: &Vec<SortKey>, desc: bool, x: usize, y: usize) -> (b: bool)
    requires
        x < keys@.len(),
        y < keys@.len(),
    ensures
        b == (dir_sign(keys@[x as int]@, keys@[y as int]@, desc) < 0),
{
    let s = key_sign_exec(&keys[x], &keys[y]);
    if desc {
        s > 0
    } else {
        s < 0
    }
}

/// The indices `0..keys.len()` in stable sorted order of their keys (reversed key
/// order when `desc`; ties always keep input order).
pub fn stable_order(keys: &Vec<SortKey>, desc: bool) -> (p: Vec<usize>)
    ensures
        is_permutation(p@, keys@.len() as int),
        sorted_by_keys(p@, key_views(keys@), desc),
{
    let ghost kv = key_views(keys@);
    let n = keys.len();
    let mut p: Vec<usize> = Vec::new();
    let mut m: usize = 0;
    while m < n
        invariant
            m <= n,
            n == keys@.len(),
            kv == key_views(keys@),
            p@.len() == m,
            forall|i: int| 0 <= i < m ==> #[trigger] p@[i] < m,
            forall|i: int, j: int| 0 <= i < j < m ==> p@[i] != p@[j],
            forall|t: int| 0 <= t < m ==> #[trigger] covers(p@, m as int, t),
            sorted_by_keys(p@, kv, desc),
        decreases n - m,
    {
        // the insertion point: after every row that goes before row m
        let mut k: usize = m;
        while k > 0 && key_strictly_first(keys, desc, m, p[k - 1])
            invariant
                k <= m,
                m < n,
                n == keys@.len(),
                kv == key_views(keys@),
                p@.len() == m,
                forall|i: int| 0 <= i < m ==> #[trigger] p@[i] < m,
                forall|i: int| k <= i < m ==> before(kv, desc, m as int, #[trigger] p@[i] as int),
            decreases k,
        {
            k = k - 1;
        }
        proof {
            if k > 0 {
                lemma_before_total(kv, desc, p@[k - 1] as int, m as int, m as int);
                assert(before(kv, desc, p@[k - 1] as int, m as int));
            }
        }
        let ghost old_p = p@;
        p.insert(k, m);
        proof {
            assert(p@ =~= old_p.insert(k as int, m));
            assert forall|i: int| 0 <= i < m + 1 implies #[trigger] p@[i] < m + 1 by {
                if i < k {
                    assert(p@[i] == old_p[i]);
                } else if i > k {
                    assert(p@[i] == old_p[i - 1]);
                }
            }
            assert forall|t: int| 0 <= t < m + 1 implies #[trigger] covers(p@, m + 1, t) by {
                if t == m {
                    assert(p@[k as int] == t);
                } else {
                    assert(covers(old_p, m as int, t));
                    let u = choose|u: int| 0 <= u < m && old_p[u] == t;
                    if u < k {
                        assert(p@[u] == t);
                    } else {
                        assert(p@[u + 1] == t);
                    }
                }
            }
            assert forall|i: int, j: int| 0 <= i < j < m + 1 implies p@[i] != p@[j] by {
                if i < k && j < k {
                    assert(p@[i] == old_p[i] && p@[j] == old_p[j]);
                } else if i < k && j == k {
                    assert(p@[i] == old_p[i]);
                } else if i < k && j > k {
                    assert(p@[i] == old_p[i] && p@[j] == old_p[j - 1]);
                } else if i == k {
                    assert(p@[j] == old_p[j - 1]);
                } else {
                    assert(p@[i] == old_p[i - 1] && p@[j] == old_p[j - 1]);
                }
            }
            assert forall|i: int, j: int| 0 <= i < j < p@.len() implies before(
                kv,
                desc,
                #[trigger] p@[i] as int,
                #[trigger] p@[j] as int,
            ) by {
                if i < k && j < k {
                    assert(p@[i] == old_p[i] && p@[j] == old_p[j]);
                } else if i < k && j == k {
                    assert(p@[i] == old_p[i]);
                    if i < k - 1 {
                        assert(before(kv, desc, old_p[i] as int, old_p[k - 1] as int));
                        lemma_before_total(
                            kv,
                            desc,
                            old_p[i] as int,
                            old_p[k - 1] as int,
                            m as int,
                        );
                    }
                } else if i < k && j > k {
                    assert(p@[i] == old_p[i] && p@[j] == old_p[j - 1]);
                } else if i == k {
                    assert(p@[j] == old_p[j - 1]);
                    assert(before(kv, desc, m as int, old_p[j - 1] as int));
                } else {
                    assert(p@[i] == old_p[i - 1] && p@[j] == old_p[j - 1]);
                }
            }
        }
        m = m + 1;
    }
    p
}

// ---- stable sort by a comparator -----------------------------------------------------

/// How a table column is sorted: not at all (the order the data came in), ascending, or
/// descending.
#[derive(Clone, Copy, Debug, PartialEq, Eq, Structural)]
pub enum ColumnSort {
    Default,
    Ascending,
    Descending,
}

/// A comparison sign on `0..n` is a total preorder: swapping the arguments negates it,
/// and "not after" is transitive.
pub open spec fn sign_total(s: spec_fn(int, int) -> int, n: int) -> bool {
    &&& forall|x: int, y: int| 0 <= x < n && 0 <= y < n ==> #[trigger] s(x, y) == -s(y, x)
    &&& forall|x: int, y: int, z: int|
        0 <= x < n && 0 <= y < n && 0 <= z < n && #[trigger] s(x, y) <= 0 && #[trigger] s(y, z)
            <= 0 ==> s(x, z) <= 0
}

/// Element `x` goes before `y` in the stable order of `s`: it compares first, or they
/// tie and `x` came first.
pub open spec fn before_by(s: spec_fn(int, int) -> int, x: int, y: int) -> bool {
    s(x, y) < 0 || (s(x, y) == 0 && x < y)
}

/// `p` lists elements in the stable order of `s`.
pub open spec fn sorted_by_sign(p: Seq<usize>, s: spec_fn(int, int) -> int) -> bool {
    forall|i: int, j: int|
        0 <= i < j < p.len() ==> before_by(s, #[trigger] p[i] as int, #[trigger] p[j] as int)
}

/// `p` lists elements in non-decreasing class.
pub open spec fn class_sorted(p: Seq<usize>, c: spec_fn(int) -> int) -> bool {
    forall|i: int, j: int| 0 <= i < j < p.len() ==> c(#[trigger] p[i] as int) <= c(#[trigger] p[j] as int)
}

/// `s` always puts a lower class first, in either argument order.
pub open spec fn class_respected(s: spec_fn(int, int) -> int, c: spec_fn(int) -> int, n: int) -> bool {
    forall|x: int, y: int|
        #![trigger s(x, y)]
        #![trigger s(y, x)]
        0 <= x < n && 0 <= y < n && c(x) < c(y) ==> s(x, y) < 0 && s(y, x) > 0
}

proof fn lemma_before_by(s: spec_fn(int, int) -> int, n: int, x: int, y: int, z: int)
    requires
        sign_total(s, n),
        0 <= x < n,
        0 <= y < n,
        0 <= z < n,
    ensures
        x != y ==> (before_by(s, x, y) <==> !before_by(s, y, x)),
        before_by(s, x, y) && before_by(s, y, z) ==> before_by(s, x, z),
{
    assert(s(x, y) == -s(y, x));
    assert(s(y, z) == -s(z, y));
    assert(s(x, z) == -s(z, x));
    if before_by(s, x, y) && before_by(s, y, z) {
        assert(s(x, y) <= 0 && s(y, z) <= 0 ==> s(x, z) <= 0);
        if s(x, z) == 0 {
            assert(s(z, x) <= 0 && s(x, y) <= 0 ==> s(z, y) <= 0);
            assert(s(y, z) <= 0 && s(z, x) <= 0 ==> s(y, x) <= 0);
        }
    }
}

/// The positions `0..n` in the stable order of the comparator `sign_at`, whose answers
/// are the signs `s`: an insertion sort that moves each element back only past
/// elements it strictly precedes. Always a permutation, always ordered by any class
/// that `s` respects; when `s` is a total preorder, exactly the stable sort.
pub(crate) fn stable_sort_by<F: Fn(usize, usize) -> i8>(
    n: usize,
    sign_at: F,
    Ghost(s): Ghost<spec_fn(int, int) -> int>,
    Ghost(c): Ghost<spec_fn(int) -> int>,
) -> (p: Vec<usize>)
    requires
        forall|x: usize, y: usize| x < n && y < n ==> #[trigger] sign_at.requires((x, y)),
        forall|x: usize, y: usize, r: i8|
            x < n && y < n && #[trigger] sign_at.ensures((x, y), r) ==> r as int == s(x as int, y as int),
        class_respected(s, c, n as int),
    ensures
        is_permutation(p@, n as int),
        class_sorted(p@, c),
        sign_total(s, n as int) ==> sorted_by_sign(p@, s),
{
    let mut p: Vec<usize> = Vec::new();
    let mut m: usize = 0;
    while m < n
        invariant
            m <= n,
            forall|x: usize, y: usize| x < n && y < n ==> #[trigger] sign_at.requires((x, y)),
            forall|x: usize, y: usize, r: i8|
                x < n && y < n && #[trigger] sign_at.ensures((x, y), r) ==> r as int == s(
                    x as int,
                    y as int,
                ),
            class_respected(s, c, n as int),
            p@.len() == m,
            forall|i: int| 0 <= i < m ==> #[trigger] p@[i] < m,
            forall|i: int, j: int| 0 <= i < j < m ==> p@[i] != p@[j],
            forall|t: int| 0 <= t < m ==> #[trigger] covers(p@, m as int, t),
            class_sorted(p@, c),
            sign_total(s, n as int) ==> sorted_by_sign(p@, s),
        decreases n - m,
    {
        let mut k: usize = m;
        while k > 0 && sign_at(m, p[k - 1]) < 0
            invariant
                k <= m,
                m < n,
                forall|x: usize, y: usize| x < n && y < n ==> #[trigger] sign_at.requires((x, y)),
                forall|x: usize, y: usize, r: i8|
                    x < n && y < n && #[trigger] sign_at.ensures((x, y), r) ==> r as int == s(
                        x as int,
                        y as int,
                    ),
                p@.len() == m,
                forall|i: int| 0 <= i < m ==> #[trigger] p@[i] < m,
                forall|i: int| k <= i < m ==> s(m as int, #[trigger] p@[i] as int) < 0,
            decreases k,
        {
            k = k - 1;
        }
        let ghost old_p = p@;
        proof {
            if k > 0 {
                assert(s(m as int, old_p[k - 1] as int) >= 0);
            }
        }
        p.insert(k, m);
        proof {
            assert(p@ =~= old_p.insert(k as int, m));
            assert forall|i: int| 0 <= i < m + 1 implies #[trigger] p@[i] < m + 1 by {
                if i < k {
                    assert(p@[i] == old_p[i]);
                } else if i > k {
                    assert(p@[i] == old_p[i - 1]);
                }
            }
            assert forall|t: int| 0 <= t < m + 1 implies #[trigger] covers(p@, m + 1, t) by {
                if t == m {
                    assert(p@[k as int] == t);
                } else {
                    assert(covers(old_p, m as int, t));
                    let u = choose|u: int| 0 <= u < m && old_p[u] == t;
                    if u < k {
                        assert(p@[u] == t);
                    } else {
                        assert(p@[u + 1] == t);
                    }
                }
            }
            assert forall|i: int, j: int| 0 <= i < j < m + 1 implies p@[i] != p@[j] by {
                if i < k && j < k {
                    assert(p@[i] == old_p[i] && p@[j] == old_p[j]);
                } else if i < k && j == k {
                    assert(p@[i] == old_p[i]);
                } else if i < k && j > k {
                    assert(p@[i] == old_p[i] && p@[j] == old_p[j - 1]);
                } else if i == k {
                    assert(p@[j] == old_p[j - 1]);
                } else {
                    assert(p@[i] == old_p[i - 1] && p@[j] == old_p[j - 1]);
                }
            }
            assert forall|i: int, j: int| 0 <= i < j < p@.len() implies c(
                #[trigger] p@[i] as int,
            ) <= c(#[trigger] p@[j] as int) by {
                if i < k && j < k {
                    assert(p@[i] == old_p[i] && p@[j] == old_p[j]);
                } else if i < k && j == k {
                    assert(p@[i] == old_p[i]);
                    // the element just before the insertion point does not follow m
                    assert(c(old_p[k - 1] as int) <= c(m as int));
                    if i < k - 1 {
                        assert(c(old_p[i] as int) <= c(old_p[k - 1] as int));
                    }
                } else if i < k && j > k {
                    assert(p@[i] == old_p[i] && p@[j] == old_p[j - 1]);
                } else if i == k {
                    assert(p@[j] == old_p[j - 1]);
                    assert(s(m as int, old_p[j - 1] as int) < 0);
                    assert(s(old_p[j - 1] as int, m as int) == s(old_p[j - 1] as int, m as int));
                } else {
                    assert(p@[i] == old_p[i - 1] && p@[j] == old_p[j - 1]);
                }
            }
            if sign_total(s, n as int) {
                assert forall|i: int, j: int| 0 <= i < j < p@.len() implies before_by(
                    s,
                    #[trigger] p@[i] as int,
                    #[trigger] p@[j] as int,
                ) by {
                    if i < k && j < k {
                        assert(p@[i] == old_p[i] && p@[j] == old_p[j]);
                    } else if i < k && j == k {
                        assert(p@[i] == old_p[i]);
                        lemma_before_by(s, n as int, old_p[k - 1] as int, m as int, m as int);
                        assert(before_by(s, old_p[k - 1] as int, m as int));
                        if i < k - 1 {
                            assert(before_by(s, old_p[i] as int, old_p[k - 1] as int));
                            lemma_before_by(
                                s,
                                n as int,
                                old_p[i] as int,
                                old_p[k - 1] as int,
                                m as int,
                            );
                        }
                    } else if i < k && j > k {
                        assert(p@[i] == old_p[i] && p@[j] == old_p[j - 1]);
                    } else if i == k {
                        assert(p@[j] == old_p[j - 1]);
                        assert(s(m as int, old_p[j - 1] as int) < 0);
                    } else {
                        assert(p@[i] == old_p[i - 1] && p@[j] == old_p[j - 1]);
                    }
                }
            }
        }
        m = m + 1;
    }
    p
}

/// Rearrange `rows` into the order `p` names: the `k`-th result is `rows[p[k]]`. The
/// values are moved, never copied.
pub fn apply_order<T>(rows: Vec<T>, p: &Vec<usize>) -> (out: Vec<T>)
    requires
        is_permutation(p@, rows@.len() as int),
    ensures
        out@.len() == rows@.len(),
        forall|k: int| 0 <= k < out@.len() ==> #[trigger] out@[k] == rows@[p@[k] as int],
{
    let ghost orig = rows@;
    let n = rows.len();
    let mut rest = rows;
    let mut slots: Vec<Option<T>> = Vec::new();
    while rest.len() > 0
        invariant
            n == orig.len(),
            rest@.len() + slots@.len() == n,
            rest@ == orig.take(rest@.len() as int),
            forall|j: int| 0 <= j < slots@.len() ==> #[trigger] slots@[j] == Some(orig[n - 1 - j]),
        decreases rest@.len(),
    {
        let ghost before = rest@;
        let x = rest.pop().unwrap();
        assert(rest@ =~= orig.take(rest@.len() as int));
        slots.push(Some(x));
    }
    let mut out: Vec<T> = Vec::new();
    let mut k: usize = 0;
    while k < n
        invariant
            k <= n,
            n == orig.len(),
            slots@.len() == n,
            is_permutation(p@, n as int),
            out@.len() == k,
            forall|i: int| 0 <= i < k ==> #[trigger] out@[i] == orig[p@[i] as int],
            forall|j: int|
                0 <= j < n ==> (#[trigger] slots@[j] is Some <==> (forall|i: int|
                    0 <= i < k ==> p@[i] != n - 1 - j)),
            forall|j: int| 0 <= j < n && #[trigger] slots@[j] is Some ==> slots@[j] == Some(orig[n - 1 - j]),
        decreases n - k,
    {
        let idx = n - 1 - p[k];
        let ghost before = slots@;
        let x = slots[idx].take();
        assert(slots@ =~= before.update(idx as int, None));
        proof {
            assert(before[idx as int] is Some) by {
                assert forall|i: int| 0 <= i < k implies p@[i] != n - 1 - idx by {
                    assert(p@[i] != p@[k as int]);
                }
            }
            assert forall|j: int|
                0 <= j < n implies (#[trigger] slots@[j] is Some <==> (forall|i: int|
                    0 <= i < k + 1 ==> p@[i] != n - 1 - j)) by {
                if j == idx {
                    assert(p@[k as int] == n - 1 - j);
                }
            }
        }
        match x {
            Some(v) => {
                out.push(v);
            },
            None => {},
        }
        k = k + 1;
    }
    out
}

/// `new` is `old` rearranged by a permutation that stably sorts `keys` (reversed key
/// order when `desc`).
pub open spec fn sorted_by_keys_from<T>(new: Seq<T>, old: Seq<T>, keys: Seq<KeyView>, desc: bool) -> bool {
    exists|p: Seq<usize>|
        is_permutation(p, old.len() as int) && sorted_by_keys(p, keys, desc) && new.len()
            == old.len() && forall|k: int| 0 <= k < new.len() ==> #[trigger] new[k] == old[p[k] as int]
}

/// Stably sort `rows` by `keys` (one per row; reversed key order when `desc`, ties
/// always keeping their order).
pub fn sort_rows_by_keys<T>(rows: &mut Vec<T>, keys: &Vec<SortKey>, desc: bool)
    requires
        keys@.len() == old(rows)@.len(),
    ensures
        sorted_by_keys_from(final(rows)@, old(rows)@, key_views(keys@), desc),
{
    let p = stable_order(keys, desc);
    let mut taken: Vec<T> = Vec::new();
    std::mem::swap(rows, &mut taken);
    let ghost orig = taken@;
    let sorted = apply_order(taken, &p);
    *rows = sorted;
    assert(is_permutation(p@, orig.len() as int) && sorted_by_keys(p@, key_views(keys@), desc));
}

// ---- a listing in a strict order is unique -------------------------------------------

/// `o` lists exactly the members, each once, every earlier one `rel`-before every later
/// one.
pub open spec fn lists_in_order(o: Seq<usize>, member: spec_fn(int) -> bool, rel: spec_fn(int, int) -> bool) -> bool {
    &&& forall|i: int| 0 <= i < o.len() ==> #[trigger] member(o[i] as int)
    &&& forall|i: int, j: int| 0 <= i < j < o.len() ==> #[trigger] o[i] != #[trigger] o[j]
    &&& forall|x: int| #[trigger] member(x) ==> exists|i: int| 0 <= i < o.len() && o[i] == x
    &&& forall|i: int, j: int| 0 <= i < j < o.len() ==> #[trigger] rel(o[i] as int, o[j] as int)
}

/// `rel` never holds both ways between two different members.
pub open spec fn asymmetric_on(member: spec_fn(int) -> bool, rel: spec_fn(int, int) -> bool) -> bool {
    forall|x: int, y: int|
        #[trigger] member(x) && #[trigger] member(y) && x != y && rel(x, y) ==> !rel(y, x)
}

proof fn lemma_listing_prefix(
    o1: Seq<usize>,
    o2: Seq<usize>,
    member: spec_fn(int) -> bool,
    rel: spec_fn(int, int) -> bool,
    k: int,
)
    requires
        lists_in_order(o1, member, rel),
        lists_in_order(o2, member, rel),
        asymmetric_on(member, rel),
        0 <= k <= o1.len(),
        k <= o2.len(),
    ensures
        forall|i: int| 0 <= i < k ==> o1[i] == o2[i],
    decreases k,
{
    if k > 0 {
        lemma_listing_prefix(o1, o2, member, rel, k - 1);
        let a = o1[k - 1];
        let b = o2[k - 1];
        if a != b {
            assert(member(a as int));
            assert(member(b as int));
            let m = choose|i: int| 0 <= i < o2.len() && o2[i] == a as int;
            let p = choose|i: int| 0 <= i < o1.len() && o1[i] == b as int;
            if m < k - 1 {
                assert(o1[m] == o2[m]);
                assert(o1[m] != o1[k - 1]);
            }
            if p < k - 1 {
                assert(o2[p] == o1[p]);
                assert(o2[p] != o2[k - 1]);
            }
            assert(m > k - 1);
            assert(p > k - 1);
            assert(rel(o2[k - 1] as int, o2[m] as int));
            assert(rel(o1[k - 1] as int, o1[p] as int));
            assert(false);
        }
    }
}

/// Two listings of the same members in the same asymmetric order are the same listing.
pub proof fn lemma_listing_unique(
    o1: Seq<usize>,
    o2: Seq<usize>,
    member: spec_fn(int) -> bool,
    rel: spec_fn(int, int) -> bool,
)
    requires
        lists_in_order(o1, member, rel),
        lists_in_order(o2, member, rel),
        asymmetric_on(member, rel),
    ensures
        o1 == o2,
{
    let n = if o1.len() < o2.len() {
        o1.len() as int
    } else {
        o2.len() as int
    };
    lemma_listing_prefix(o1, o2, member, rel, n);
    if o1.len() < o2.len() {
        let x = o2[n];
        assert(member(x as int));
        let p = choose|i: int| 0 <= i < o1.len() && o1[i] == x as int;
        assert(o2[p] == o1[p]);
        assert(o2[p] != o2[n]);
    }
    if o2.len() < o1.len() {
        let x = o1[n];
        assert(member(x as int));
        let p = choose|i: int| 0 <= i < o2.len() && o2[i] == x as int;
        assert(o1[p] == o2[p]);
        assert(o1[p] != o1[n]);
    }
    assert(o1 =~= o2);
}

} // verus!
