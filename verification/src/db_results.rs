//! The database results grid: the column width plan derived from a page's shape, the
//! one-line rendering of a cell, and the page-local view (filter, then a stable sort
//! that keeps NULLs last in both directions) with the caveat it has to carry.
//!
//! Widths are in tenths of a logical pixel. Floating-point parsing stays outside the
//! library: where two cells of a numeric column only parse as floats, their order is
//! given by a [`FloatRank`] per row, computed by the caller from the parsed values.

use std::cmp::Ordering;
use vstd::prelude::*;
use crate::model::{ColumnType, DbColumn, Row, QueryPage};
use crate::numeral::{parse_signed, parse_i128_chars, i128_min, i128_max};
use crate::order::{
    int_sign, lex_sign, lex_sign_chars, ordering_of, to_ordering, stable_sort_by, sign_total,
    before_by, covers, ColumnSort,
    lists_in_order, lemma_listing_unique,
};
use crate::text::{
    lowercase, is_white, trim_seq, trim, trim_string, chars_of, lower_chars, chars_eq, str_eq,
    contains_chars, contains_seq, ascii_lower_seq, ascii_lower_vec, split_by, nonempty_parts,
    join_with, views, join_strings, is_whitespace, push_char, copy_strings, char_count,
};

verus! {

// ---- the column plan ---------------------------------------------------------------

/// The width one character of a cell takes, in tenths of a pixel.
pub const CELL_CHAR_TENTHS: u64 = 68;
/// Cell padding and the header's sort-chevron room, in tenths of a pixel.
pub const CELL_CHROME_TENTHS: u64 = 280;
/// The narrowest a bounded (numeric, bool, null) column renders.
pub const NUMERIC_MIN_TENTHS: u64 = 880;
/// The widest a bounded column is floored at.
pub const NUMERIC_MAX_TENTHS: u64 = 2000;
/// The narrowest an unbounded (text-like) column renders.
pub const TEXT_MIN_TENTHS: u64 = 1400;
/// The widest an unbounded column is floored at.
pub const TEXT_MAX_TENTHS: u64 = 3200;

/// How one result column claims width.
#[derive(Clone, Copy, Debug, PartialEq, Eq, Structural)]
pub enum ColumnPlan {
    /// Compact: at least this wide, and takes leftover room only when nothing grows.
    Min(u64),
    /// Absorbs leftover room in proportion to `weight`, floored at `min`.
    Grow { min: u64, weight: u64 },
}

impl ColumnPlan {
    /// The width the column is floored at.
    pub fn floor(&self) -> (r: u64)
        ensures
            r == match *self {
                ColumnPlan::Min(w) => w,
                ColumnPlan::Grow { min, .. } => min,
            },
    {
        match self {
            ColumnPlan::Min(w) => *w,
            ColumnPlan::Grow { min, .. } => *min,
        }
    }
}

/// Whether values of this type have a known bound on their rendered width.
pub open spec fn bounded(ty: ColumnType) -> bool {
    ty is Integer || ty is Float || ty is Bool || ty is Null
}

/// Whether values of this type have a known bound on their rendered width: numbers,
/// booleans and all-NULL columns do; text, bytes and driver-specific types do not.
pub fn is_bounded(ty: &ColumnType) -> (b: bool)
    ensures
        b == bounded(*ty),
{
    match ty {
        ColumnType::Integer | ColumnType::Float | ColumnType::Bool | ColumnType::Null => true,
        _ => false,
    }
}

/// The character count of row `r`'s cell `ix` (0 when the row has no such cell).
pub open spec fn cell_len(r: Seq<Seq<char>>, ix: int) -> int {
    if 0 <= ix < r.len() {
        r[ix].len() as int
    } else {
        0
    }
}

/// The widest cell of column `ix` over `rows`, in characters.
pub open spec fn widest_cell(rows: Seq<Row>, ix: int) -> int
    decreases rows.len(),
{
    if rows.len() == 0 {
        0
    } else {
        let w = widest_cell(rows.drop_last(), ix);
        let l = cell_len(rows.last()@, ix);
        if l > w {
            l
        } else {
            w
        }
    }
}

/// `x` clamped into `lo..=hi`.
pub open spec fn clamp(x: int, lo: int, hi: int) -> int {
    if x < lo {
        lo
    } else if x > hi {
        hi
    } else {
        x
    }
}

/// The plan for one column whose widest content (header or cell) is `chars` long: its
/// ideal width is `chars` characters plus chrome; a bounded column is a `Min` clamped
/// into the numeric range, an unbounded one a `Grow` floored into the text range and
/// weighted by its content length (at least 1).
pub open spec fn column_plan(ty: ColumnType, chars: int) -> ColumnPlan {
    let ideal = chars * CELL_CHAR_TENTHS + CELL_CHROME_TENTHS;
    if bounded(ty) {
        ColumnPlan::Min(clamp(ideal, NUMERIC_MIN_TENTHS as int, NUMERIC_MAX_TENTHS as int) as u64)
    } else {
        ColumnPlan::Grow {
            min: clamp(ideal, TEXT_MIN_TENTHS as int, TEXT_MAX_TENTHS as int) as u64,
            weight: (if chars > 1 {
                chars
            } else {
                1
            }) as u64,
        }
    }
}

/// The widest content of column `ix`: its header or its widest cell.
pub open spec fn content_chars(c: DbColumn, rows: Seq<Row>, ix: int) -> int {
    let w = widest_cell(rows, ix);
    if c.name@.len() > w {
        c.name@.len() as int
    } else {
        w
    }
}

/// The widest cell of column `ix` over `rows`.
fn widest_cell_exec(rows: &Vec<Row>, ix: usize) -> (r: usize)
    ensures
        r as int == widest_cell(rows@, ix as int),
{
    let mut w: usize = 0;
    let mut i: usize = 0;
    while i < rows.len()
        invariant
            i <= rows.len(),
            w as int == widest_cell(rows@.take(i as int), ix as int),
        decreases rows.len() - i,
    {
        let l: usize = if ix < rows[i].values.len() {
            char_count(rows[i].values[ix].as_str())
        } else {
            0
        };
        proof {
            let t = rows@.take(i + 1);
            assert(t.drop_last() =~= rows@.take(i as int));
            assert(t.last() == rows@[i as int]);
            assert(l as int == cell_len(rows@[i as int]@, ix as int));
        }
        if l > w {
            w = l;
        }
        i = i + 1;
    }
    assert(rows@.take(rows.len() as int) =~= rows@);
    w
}

/// The plan for one column of type `ty` whose widest content is `chars` long.
fn plan_one(ty: &ColumnType, chars: usize) -> (p: ColumnPlan)
    ensures
        p == column_plan(*ty, chars as int),
{
    // past 1000 characters every clamp is already at its cap
    let c: u64 = if chars > 1000 {
        1000
    } else {
        chars as u64
    };
    let ideal: u64 = c * 68 + 280;
    if is_bounded(ty) {
        let w: u64 = if ideal < 880 {
            880
        } else if ideal > 2000 {
            2000
        } else {
            ideal
        };
        ColumnPlan::Min(w)
    } else {
        let m: u64 = if ideal < 1400 {
            1400
        } else if ideal > 3200 {
            3200
        } else {
            ideal
        };
        let weight: u64 = if chars > 1 {
            chars as u64
        } else {
            1
        };
        ColumnPlan::Grow { min: m, weight }
    }
}

/// Plan a page's column widths from its shape: one plan per column, as
/// [`column_plan`] says, for the widest of its header and its cells on this page. No
/// columns, no plans.
pub fn plan_result_columns(columns: &Vec<DbColumn>, rows: &Vec<Row>) -> (out: Vec<ColumnPlan>)
    ensures
        out@.len() == columns@.len(),
        forall|i: int|
            0 <= i < columns@.len() ==> #[trigger] out@[i] == column_plan(
                columns@[i].ty,
                content_chars(columns@[i], rows@, i),
            ),
{
    let mut out: Vec<ColumnPlan> = Vec::new();
    let mut i: usize = 0;
    while i < columns.len()
        invariant
            i <= columns.len(),
            out@.len() == i,
            forall|k: int|
                0 <= k < i ==> #[trigger] out@[k] == column_plan(
                    columns@[k].ty,
                    content_chars(columns@[k], rows@, k),
                ),
        decreases columns.len() - i,
    {
        let w = widest_cell_exec(rows, i);
        let n = char_count(columns[i].name.as_str());
        let chars = if n > w {
            n
        } else {
            w
        };
        out.push(plan_one(&columns[i].ty, chars));
        i = i + 1;
    }
    out
}

// ---- one line per cell -------------------------------------------------------------

/// The whitespace test, as a separator for [`split_by`].
pub open spec fn white_sep() -> spec_fn(char) -> bool {
    |c: char| is_white(c)
}

/// The whitespace-separated words of `s`.
pub open spec fn words(s: Seq<char>) -> Seq<Seq<char>> {
    nonempty_parts(split_by(s, white_sep()))
}

/// `text`'s words joined by single spaces: every run of whitespace (newlines included)
/// becomes one space, and the ends are trimmed.
pub fn single_line(text: &str) -> (r: String)
    ensures
        r@ == join_with(words(text@), " "@),
{
    let ghost sep = white_sep();
    let v = chars_of(text);
    let mut out = String::new();
    let mut pending = false;
    let mut i: usize = 0;
    proof {
        reveal_strlit(" ");
        assert(v@.take(0) =~= Seq::<char>::empty());
        assert(split_by(v@.take(0), sep) == seq![Seq::<char>::empty()]);
        assert(seq![Seq::<char>::empty()].drop_last() =~= Seq::<Seq<char>>::empty());
        assert(nonempty_parts(Seq::<Seq<char>>::empty()) =~= Seq::<Seq<char>>::empty());
        assert(nonempty_parts(seq![Seq::<char>::empty()]) =~= Seq::<Seq<char>>::empty());
    }
    while i < v.len()
        invariant
            i <= v.len(),
            v@ == text@,
            out@ == join_with(nonempty_parts(split_by(v@.take(i as int), sep)), " "@),
            pending == (i > 0 && is_white(v@[i - 1])),
            " "@ == seq![' '],
            sep == white_sep(),
        decreases v.len() - i,
    {
        let c = v[i];
        let ghost pre = v@.take(i as int);
        let ghost post = v@.take(i + 1);
        let ghost sp = split_by(pre, sep);
        proof {
            assert(post.drop_last() =~= pre);
            assert(post.last() == c);
            assert(post.len() > 0);
            assert(sep(c) == is_white(c));
            crate::text::lemma_split_nonempty(pre, sep);
        }
        if is_whitespace(c) {
            pending = true;
            proof {
                assert(split_by(post, sep) == sp.push(Seq::empty()));
                assert(nonempty_parts(sp.push(Seq::empty())) =~= nonempty_parts(sp)) by {
                    assert(sp.push(Seq::<char>::empty()).drop_last() =~= sp);
                }
            }
        } else {
            let ghost w = nonempty_parts(sp);
            let ghost np = split_by(post, sep);
            proof {
                assert(np == sp.update(sp.len() - 1, sp.last().push(c)));
                assert(np.drop_last() =~= sp.drop_last());
                assert(np.last() == sp.last().push(c));
            }
            proof {
                crate::text::lemma_nonempty_parts(sp);
                if w.len() > 0 {
                    crate::text::lemma_join_nonempty(w, " "@);
                }
            }
            if pending && !out.as_str().is_empty() {
                push_char(&mut out, ' ');
            }
            proof {
                if i > 0 && is_white(v@[i - 1]) {
                    // the previous piece was closed by whitespace: this starts a word
                    assert(sp.last() == Seq::<char>::empty()) by {
                        assert(pre.last() == v@[i - 1]);
                    }
                    assert(nonempty_parts(sp) =~= nonempty_parts(sp.drop_last())) by {
                        assert(sp.last().len() == 0);
                    }
                    assert(nonempty_parts(np) == nonempty_parts(sp.drop_last()).push(seq![c])) by {
                        assert(np.last() =~= seq![c]);
                    }
                } else if i > 0 {
                    // the previous character extends the last word
                    assert(pre.last() == v@[i - 1]);
                    assert(split_by(pre, sep) == split_by(pre.drop_last(), sep).update(
                        split_by(pre.drop_last(), sep).len() - 1,
                        split_by(pre.drop_last(), sep).last().push(pre.last()),
                    ));
                    crate::text::lemma_split_nonempty(pre.drop_last(), sep);
                    assert(sp.last().len() > 0);
                    assert(nonempty_parts(sp) == nonempty_parts(sp.drop_last()).push(sp.last()));
                    assert(nonempty_parts(np) == nonempty_parts(sp.drop_last()).push(
                        sp.last().push(c),
                    ));
                } else {
                    assert(sp =~= seq![Seq::<char>::empty()]);
                    assert(np =~= seq![seq![c]]);
                    assert(nonempty_parts(sp.drop_last()) =~= Seq::<Seq<char>>::empty());
                    assert(nonempty_parts(np) =~= seq![seq![c]]);
                }
            }
            push_char(&mut out, c);
            pending = false;
            proof {
                let w2 = nonempty_parts(np);
                if i > 0 && is_white(v@[i - 1]) {
                    if w.len() == 0 {
                        assert(w2 =~= seq![seq![c]]);
                        assert(out@ =~= join_with(w2, " "@));
                    } else {
                        assert(w2.drop_last() =~= w);
                        assert(out@ =~= join_with(w2, " "@));
                    }
                } else if i > 0 {
                    let base = nonempty_parts(sp.drop_last());
                    assert(w == base.push(sp.last()));
                    assert(w2 == base.push(sp.last().push(c)));
                    if base.len() == 0 {
                        assert(w2.len() == 1);
                        assert(out@ =~= join_with(w2, " "@));
                    } else {
                        assert(w2.drop_last() =~= base);
                        assert(w.drop_last() =~= base);
                        assert(out@ =~= join_with(w2, " "@));
                    }
                } else {
                    assert(out@ =~= join_with(w2, " "@));
                }
            }
        }
        i = i + 1;
    }
    assert(v@.take(v.len() as int) =~= v@);
    out
}

// ---- ordering cells ----------------------------------------------------------------

/// How a SQL NULL renders.
pub const NULL_TEXT: &'static str = "NULL";

/// A results-grid sort: which column, and which way. No sort at all means the order
/// the engine returned.
#[derive(Clone, Copy, Debug, PartialEq, Eq, Structural)]
pub struct ResultSort {
    pub col_ix: usize,
    pub descending: bool,
}

/// The grid sort a header's sort state means for column `col_ix`.
pub fn result_sort(col_ix: usize, sort: ColumnSort) -> (r: Option<ResultSort>)
    ensures
        r == match sort {
            ColumnSort::Ascending => Some(ResultSort { col_ix, descending: false }),
            ColumnSort::Descending => Some(ResultSort { col_ix, descending: true }),
            ColumnSort::Default => None,
        },
{
    match sort {
        ColumnSort::Ascending => Some(ResultSort { col_ix, descending: false }),
        ColumnSort::Descending => Some(ResultSort { col_ix, descending: true }),
        ColumnSort::Default => None,
    }
}

/// Where a cell's text parsed as a float sits among the column's parsed values:
/// equal values share a rank, and `NotANumber` compares equal to everything.
#[derive(Clone, Copy, Debug, PartialEq, Eq, Structural)]
pub enum FloatRank {
    NotANumber,
    Ordered(u64),
}

/// Case-insensitive order, with a case-sensitive tiebreak (code-point order on the
/// lower-cased texts, then on the texts themselves), as a sign.
pub open spec fn text_sign(a: Seq<char>, b: Seq<char>) -> int {
    let l = lex_sign(lowercase(a), lowercase(b));
    if l != 0 {
        l
    } else {
        lex_sign(a, b)
    }
}

/// `0` for a false-ish rendering, `1` for a true-ish one (trimmed, ASCII
/// case-insensitive): `false`/`f`/`0`/`no` and `true`/`t`/`1`/`yes`.
pub open spec fn bool_rank_spec(v: Seq<char>) -> Option<int> {
    let t = ascii_lower_seq(trim_seq(v));
    if t == "false"@ || t == "f"@ || t == "0"@ || t == "no"@ {
        Some(0)
    } else if t == "true"@ || t == "t"@ || t == "1"@ || t == "yes"@ {
        Some(1)
    } else {
        None
    }
}

/// The value of a cell read (trimmed) as an `i128`.
pub open spec fn int_value(v: Seq<char>) -> Option<int> {
    parse_signed(trim_seq(v), i128_min(), i128_max())
}

/// Numeric order: exact integers first; else, when both parse as floats, their ranks
/// (equal when either is not a number); else text order.
pub open spec fn numeric_sign(a: Seq<char>, b: Seq<char>, fa: Option<FloatRank>, fb: Option<FloatRank>) -> int {
    match (int_value(a), int_value(b)) {
        (Some(x), Some(y)) => int_sign(x, y),
        _ => match (fa, fb) {
            (Some(FloatRank::Ordered(x)), Some(FloatRank::Ordered(y))) => int_sign(x as int, y as int),
            (Some(_), Some(_)) => 0,
            _ => text_sign(a, b),
        },
    }
}

/// `false` before `true` in every spelling; anything unrecognised orders as text.
pub open spec fn bool_sign(a: Seq<char>, b: Seq<char>) -> int {
    match (bool_rank_spec(a), bool_rank_spec(b)) {
        (Some(x), Some(y)) => int_sign(x, y),
        _ => text_sign(a, b),
    }
}

/// The order of two non-NULL cells of a column of type `ty`.
pub open spec fn cell_sign(a: Seq<char>, b: Seq<char>, ty: ColumnType, fa: Option<FloatRank>, fb: Option<FloatRank>) -> int {
    match ty {
        ColumnType::Integer | ColumnType::Float => numeric_sign(a, b, fa, fb),
        ColumnType::Bool => bool_sign(a, b),
        _ => text_sign(a, b),
    }
}

/// A row's cell in column `col` as the sort sees it: `None` for `NULL` or a missing
/// cell; an empty string is a value.
pub open spec fn cell_at(r: Seq<Seq<char>>, col: int) -> Option<Seq<char>> {
    if 0 <= col < r.len() && r[col] != NULL_TEXT@ {
        Some(r[col])
    } else {
        None
    }
}

/// The order of two rows by one column, NULLs last in both directions: the direction
/// flips the value comparison only.
pub open spec fn row_sign(
    ra: Seq<Seq<char>>,
    rb: Seq<Seq<char>>,
    col: int,
    ty: ColumnType,
    desc: bool,
    fa: Option<FloatRank>,
    fb: Option<FloatRank>,
) -> int {
    match (cell_at(ra, col), cell_at(rb, col)) {
        (None, None) => 0,
        (None, Some(_)) => 1,
        (Some(_), None) => -1,
        (Some(x), Some(y)) => if desc {
            -cell_sign(x, y, ty, fa, fb)
        } else {
            cell_sign(x, y, ty, fa, fb)
        },
    }
}

/// [`row_sign`] for a column given by index.
pub open spec fn row_sign_at(
    ra: Seq<Seq<char>>,
    rb: Seq<Seq<char>>,
    col: usize,
    ty: ColumnType,
    desc: bool,
    fa: Option<FloatRank>,
    fb: Option<FloatRank>,
) -> int {
    row_sign(ra, rb, col as int, ty, desc, fa, fb)
}

/// The text order of two cells, as a sign.
fn text_sign_exec(a: &str, b: &str) -> (r: i8)
    ensures
        r as int == text_sign(a@, b@),
{
    let la = lower_chars(a);
    let lb = lower_chars(b);
    let l = lex_sign_chars(&la, &lb);
    if l != 0 {
        l
    } else {
        let ca = chars_of(a);
        let cb = chars_of(b);
        lex_sign_chars(&ca, &cb)
    }
}

/// Case-insensitive order with a case-sensitive tiebreak.
pub fn text_cmp(a: &str, b: &str) -> (r: Ordering)
    ensures
        r == ordering_of(text_sign(a@, b@)),
{
    to_ordering(text_sign_exec(a, b))
}

/// Whether `v` holds exactly the characters of `lit`.
fn is_word(v: &Vec<char>, lit: &str) -> (b: bool)
    ensures
        b == (v@ == lit@),
{
    let w = chars_of(lit);
    chars_eq(v, &w)
}

/// `0` for a false-ish rendering, `1` for a true-ish one, `None` for neither.
pub fn bool_rank(value: &str) -> (r: Option<u8>)
    ensures
        match bool_rank_spec(value@) {
            Some(k) => r matches Some(x) && x as int == k,
            None => r is None,
        },
{
    let t = trim(value);
    let lo = ascii_lower_vec(&t);
    if is_word(&lo, "false") || is_word(&lo, "f") || is_word(&lo, "0") || is_word(&lo, "no") {
        Some(0)
    } else if is_word(&lo, "true") || is_word(&lo, "t") || is_word(&lo, "1") || is_word(&lo, "yes") {
        Some(1)
    } else {
        None
    }
}

/// The sign of `x` against `y`.
fn sign_u64(x: u64, y: u64) -> (r: i8)
    ensures
        r as int == int_sign(x as int, y as int),
{
    if x < y {
        -1
    } else if x == y {
        0
    } else {
        1
    }
}

/// The numeric order of two cells, as a sign.
fn numeric_sign_exec(a: &str, b: &str, fa: Option<FloatRank>, fb: Option<FloatRank>) -> (r: i8)
    ensures
        r as int == numeric_sign(a@, b@, fa, fb),
{
    let ta = trim(a);
    let tb = trim(b);
    match (parse_i128_chars(&ta), parse_i128_chars(&tb)) {
        (Some(x), Some(y)) => {
            return if x < y {
                -1
            } else if x == y {
                0
            } else {
                1
            };
        },
        _ => {},
    }
    match (fa, fb) {
        (Some(FloatRank::Ordered(x)), Some(FloatRank::Ordered(y))) => sign_u64(x, y),
        (Some(_), Some(_)) => 0,
        _ => text_sign_exec(a, b),
    }
}

/// Numeric order (see [`numeric_sign`]).
pub fn numeric_cmp(a: &str, b: &str, fa: Option<FloatRank>, fb: Option<FloatRank>) -> (r: Ordering)
    ensures
        r == ordering_of(numeric_sign(a@, b@, fa, fb)),
{
    to_ordering(numeric_sign_exec(a, b, fa, fb))
}

/// The boolean order of two cells, as a sign.
fn bool_sign_exec(a: &str, b: &str) -> (r: i8)
    ensures
        r as int == bool_sign(a@, b@),
{
    match (bool_rank(a), bool_rank(b)) {
        (Some(x), Some(y)) => if x < y {
            -1
        } else if x == y {
            0
        } else {
            1
        },
        _ => text_sign_exec(a, b),
    }
}

/// `false` before `true`, in every spelling a driver produces.
pub fn bool_cmp(a: &str, b: &str) -> (r: Ordering)
    ensures
        r == ordering_of(bool_sign(a@, b@)),
{
    to_ordering(bool_sign_exec(a, b))
}

/// The order of two non-NULL cells of type `ty`, as a sign.
fn cell_sign_exec(a: &str, b: &str, ty: &ColumnType, fa: Option<FloatRank>, fb: Option<FloatRank>) -> (r:
    i8)
    ensures
        r as int == cell_sign(a@, b@, *ty, fa, fb),
        -1 <= r <= 1,
{
    proof {
        crate::order::lemma_lex_flip(lowercase(a@), lowercase(b@));
        crate::order::lemma_lex_flip(a@, b@);
    }
    match ty {
        ColumnType::Integer | ColumnType::Float => numeric_sign_exec(a, b, fa, fb),
        ColumnType::Bool => bool_sign_exec(a, b),
        _ => text_sign_exec(a, b),
    }
}

/// Order two non-NULL cells of a column of type `ty`.
pub fn cell_cmp(a: &str, b: &str, ty: &ColumnType, fa: Option<FloatRank>, fb: Option<FloatRank>) -> (r:
    Ordering)
    ensures
        r == ordering_of(cell_sign(a@, b@, *ty, fa, fb)),
{
    to_ordering(cell_sign_exec(a, b, ty, fa, fb))
}

/// One cell as the sort sees it: `None` for `NULL` or a cell the row does not have.
pub fn sortable_cell(row: &Row, col_ix: usize) -> (r: Option<&str>)
    ensures
        match r {
            Some(s) => cell_at(row@, col_ix as int) == Some(s@),
            None => cell_at(row@, col_ix as int) is None,
        },
{
    if col_ix < row.values.len() {
        let v = row.values[col_ix].as_str();
        if str_eq(v, NULL_TEXT) {
            None
        } else {
            Some(v)
        }
    } else {
        None
    }
}

/// The order of two rows by one column, as a sign.
fn row_sign_exec(
    a: &Row,
    b: &Row,
    col_ix: usize,
    ty: &ColumnType,
    descending: bool,
    fa: Option<FloatRank>,
    fb: Option<FloatRank>,
) -> (r: i8)
    ensures
        r as int == row_sign(a@, b@, col_ix as int, *ty, descending, fa, fb),
{
    match (sortable_cell(a, col_ix), sortable_cell(b, col_ix)) {
        (None, None) => 0,
        (None, Some(_)) => 1,
        (Some(_), None) => -1,
        (Some(x), Some(y)) => {
            let o = cell_sign_exec(x, y, ty, fa, fb);
            if descending {
                -o
            } else {
                o
            }
        },
    }
}

/// Order two rows by one column, with NULLs last in both directions.
pub fn row_cmp(
    a: &Row,
    b: &Row,
    col_ix: usize,
    ty: &ColumnType,
    descending: bool,
    fa: Option<FloatRank>,
    fb: Option<FloatRank>,
) -> (r: Ordering)
    ensures
        r == ordering_of(row_sign_at(a@, b@, col_ix, *ty, descending, fa, fb)),
{
    to_ordering(row_sign_exec(a, b, col_ix, ty, descending, fa, fb))
}

// ---- the page-local view -----------------------------------------------------------

/// The filter text as matched: trimmed, then lower-cased.
pub open spec fn needle_of(query: Seq<char>) -> Seq<char> {
    lowercase(trim_seq(query))
}

/// A row matches when the needle is empty or occurs in some cell's lower-cased text.
pub open spec fn row_matches_spec(r: Seq<Seq<char>>, needle: Seq<char>) -> bool {
    needle.len() == 0 || exists|k: int| 0 <= k < r.len() && contains_seq(lowercase(r[k]), needle)
}

/// Whether any of `row`'s cells contains `needle` (already trimmed and lower-cased)
/// once lower-cased; an empty needle matches everything.
pub fn row_matches(row: &Row, needle: &Vec<char>) -> (b: bool)
    ensures
        b == row_matches_spec(row@, needle@),
{
    if needle.len() == 0 {
        return true;
    }
    let mut k: usize = 0;
    while k < row.values.len()
        invariant
            k <= row.values.len(),
            needle@.len() > 0,
            forall|j: int| 0 <= j < k ==> !contains_seq(lowercase(#[trigger] row@[j]), needle@),
        decreases row.values.len() - k,
    {
        let l = lower_chars(row.values[k].as_str());
        if contains_chars(&l, needle) {
            assert(row@[k as int] == row.values@[k as int]@);
            return true;
        }
        assert(row@[k as int] == row.values@[k as int]@);
        k = k + 1;
    }
    false
}

/// The float rank supplied for row `i`, if any.
pub open spec fn rank_at(fk: Seq<Option<FloatRank>>, i: int) -> Option<FloatRank> {
    if 0 <= i < fk.len() {
        fk[i]
    } else {
        None
    }
}

fn float_rank_at(fk: &Vec<Option<FloatRank>>, i: usize) -> (r: Option<FloatRank>)
    ensures
        r == rank_at(fk@, i as int),
{
    if i < fk.len() {
        fk[i]
    } else {
        None
    }
}

/// The views of a list of rows.
pub open spec fn rows_view(rows: Seq<Row>) -> Seq<Seq<Seq<char>>> {
    rows.map_values(|r: Row| r@)
}

/// The sort in force: the column index, its type and the direction — `None` when
/// there is no sort or it names a column the page does not have.
pub open spec fn active_sort(types: Seq<ColumnType>, sort: Option<ResultSort>) -> Option<(int, ColumnType, bool)> {
    match sort {
        Some(rs) => if rs.col_ix < types.len() {
            Some((rs.col_ix as int, types[rs.col_ix as int], rs.descending))
        } else {
            None
        },
        None => None,
    }
}

/// The order of rows `x` and `y` of `rows` under a sort.
pub open spec fn page_sign(
    rows: Seq<Seq<Seq<char>>>,
    fk: Seq<Option<FloatRank>>,
    col: int,
    ty: ColumnType,
    desc: bool,
    x: int,
    y: int,
) -> int {
    row_sign(rows[x], rows[y], col, ty, desc, rank_at(fk, x), rank_at(fk, y))
}

/// The sort's comparison is a total preorder on the rows that pass the filter.
pub open spec fn total_on_matching(
    rows: Seq<Seq<Seq<char>>>,
    needle: Seq<char>,
    fk: Seq<Option<FloatRank>>,
    col: int,
    ty: ColumnType,
    desc: bool,
) -> bool {
    &&& forall|x: int, y: int|
        0 <= x < rows.len() && 0 <= y < rows.len() && row_matches_spec(rows[x], needle)
            && row_matches_spec(rows[y], needle) ==> #[trigger] page_sign(rows, fk, col, ty, desc, x, y)
            == -page_sign(rows, fk, col, ty, desc, y, x)
    &&& forall|x: int, y: int, z: int|
        0 <= x < rows.len() && 0 <= y < rows.len() && 0 <= z < rows.len() && row_matches_spec(
            rows[x],
            needle,
        ) && row_matches_spec(rows[y], needle) && row_matches_spec(rows[z], needle)
            && #[trigger] page_sign(rows, fk, col, ty, desc, x, y) <= 0 && #[trigger] page_sign(
            rows,
            fk,
            col,
            ty,
            desc,
            y,
            z,
        ) <= 0 ==> page_sign(rows, fk, col, ty, desc, x, z) <= 0
}

/// What the grid shows, as row indices into the page: exactly the rows that pass the
/// filter, each once; with no sort in force, in page order; under a sort, NULLs (and
/// missing cells) after every value in both directions, and — whenever the sort's
/// comparison is a total preorder on those rows — in the stable order of that
/// comparison, ties keeping page order.
pub open spec fn visible_order_ok(
    order: Seq<usize>,
    types: Seq<ColumnType>,
    rows: Seq<Seq<Seq<char>>>,
    query: Seq<char>,
    sort: Option<ResultSort>,
    fk: Seq<Option<FloatRank>>,
) -> bool {
    let needle = needle_of(query);
    &&& forall|i: int|
        0 <= i < order.len() ==> #[trigger] order[i] < rows.len() && row_matches_spec(
            rows[order[i] as int],
            needle,
        )
    &&& forall|i: int, j: int| 0 <= i < j < order.len() ==> order[i] != order[j]
    &&& forall|x: int|
        0 <= x < rows.len() && #[trigger] row_matches_spec(rows[x], needle) ==> exists|i: int|
            0 <= i < order.len() && order[i] == x
    &&& match active_sort(types, sort) {
        None => forall|i: int, j: int| 0 <= i < j < order.len() ==> #[trigger] order[i] < #[trigger] order[j],
        Some((col, ty, desc)) => {
            &&& forall|i: int, j: int|
                0 <= i < j < order.len() && cell_at(rows[#[trigger] order[i] as int], col) is None
                    ==> cell_at(rows[#[trigger] order[j] as int], col) is None
            &&& total_on_matching(rows, needle, fk, col, ty, desc) ==> forall|i: int, j: int|
                0 <= i < j < order.len() ==> before_by(
                    |x: int, y: int| page_sign(rows, fk, col, ty, desc, x, y),
                    #[trigger] order[i] as int,
                    #[trigger] order[j] as int,
                )
        },
    }
}

/// The indices of the rows that pass the filter, in page order.
fn matching_rows(rows: &Vec<Row>, needle: &Vec<char>) -> (kept: Vec<usize>)
    ensures
        forall|i: int|
            0 <= i < kept@.len() ==> #[trigger] kept@[i] < rows@.len() && row_matches_spec(
                rows@[kept@[i] as int]@,
                needle@,
            ),
        forall|i: int, j: int| 0 <= i < j < kept@.len() ==> kept@[i] < kept@[j],
        forall|x: int|
            0 <= x < rows@.len() && #[trigger] row_matches_spec(rows@[x]@, needle@) ==> exists|
                i: int,
            | 0 <= i < kept@.len() && kept@[i] == x,
{
    let mut kept: Vec<usize> = Vec::new();
    let mut r: usize = 0;
    while r < rows.len()
        invariant
            r <= rows.len(),
            forall|i: int|
                0 <= i < kept@.len() ==> #[trigger] kept@[i] < r && row_matches_spec(
                    rows@[kept@[i] as int]@,
                    needle@,
                ),
            forall|i: int, j: int| 0 <= i < j < kept@.len() ==> kept@[i] < kept@[j],
            forall|x: int|
                0 <= x < r && #[trigger] row_matches_spec(rows@[x]@, needle@) ==> exists|i: int|
                    0 <= i < kept@.len() && kept@[i] == x,
        decreases rows.len() - r,
    {
        if row_matches(&rows[r], needle) {
            let ghost before = kept@;
            kept.push(r);
            proof {
                assert forall|x: int|
                    0 <= x < r + 1 && #[trigger] row_matches_spec(rows@[x]@, needle@) implies exists|
                        i: int,
                    | 0 <= i < kept@.len() && kept@[i] == x by {
                    if x < r {
                        let i = choose|i: int| 0 <= i < before.len() && before[i] == x;
                        assert(kept@[i] == x);
                    } else {
                        assert(kept@[kept@.len() - 1] == x);
                    }
                }
            }
        }
        r = r + 1;
    }
    kept
}

/// The rows the grid shows, as indices into `rows`: `rows` narrowed by `query` (trimmed
/// and lower-cased, matched against every cell), then ordered by `sort` with a stable
/// sort that keeps NULLs last. A sort naming a column past the end of the page is
/// ignored. `float_ranks[i]` is row `i`'s sort-column cell parsed as a float (`None`
/// when it does not parse).
pub fn visible_order(
    column_types: &Vec<ColumnType>,
    rows: &Vec<Row>,
    query: &str,
    sort: Option<ResultSort>,
    float_ranks: &Vec<Option<FloatRank>>,
) -> (order: Vec<usize>)
    ensures
        visible_order_ok(order@, column_types@, rows_view(rows@), query@, sort, float_ranks@),
{
    let ghost rv = rows_view(rows@);
    let t = trim_string(query);
    let needle = lower_chars(t.as_str());
    let kept = matching_rows(rows, &needle);
    proof {
        assert forall|x: int| 0 <= x < rows@.len() implies #[trigger] rv[x] == rows@[x]@ by {}
    }
    let (col, desc) = match sort {
        Some(rs) => if rs.col_ix < column_types.len() {
            (rs.col_ix, rs.descending)
        } else {
            return kept;
        },
        None => {
            return kept;
        },
    };
    let ty = &column_types[col];
    let ghost fk = float_ranks@;
    let ghost s = |a: int, b: int|
        page_sign(rv, fk, col as int, *ty, desc, kept@[a] as int, kept@[b] as int);
    let ghost c = |a: int|
        if cell_at(rv[kept@[a] as int], col as int) is None {
            1int
        } else {
            0int
        };
    let sign_at = |x: usize, y: usize| -> (r: i8)
        requires
            x < kept@.len(),
            y < kept@.len(),
            forall|i: int| 0 <= i < kept@.len() ==> #[trigger] kept@[i] < rows@.len(),
        ensures
            r as int == row_sign(
                rows@[kept@[x as int] as int]@,
                rows@[kept@[y as int] as int]@,
                col as int,
                *ty,
                desc,
                rank_at(float_ranks@, kept@[x as int] as int),
                rank_at(float_ranks@, kept@[y as int] as int),
            ),
        {
            let a = kept[x];
            let b = kept[y];
            row_sign_exec(
                &rows[a],
                &rows[b],
                col,
                ty,
                desc,
                float_rank_at(float_ranks, a),
                float_rank_at(float_ranks, b),
            )
        };
    let n = kept.len();
    proof {
        assert forall|x: usize, y: usize, r: i8|
            x < n && y < n && #[trigger] sign_at.ensures((x, y), r) implies r as int == s(
                x as int,
                y as int,
            ) by {
            assert(rv[kept@[x as int] as int] == rows@[kept@[x as int] as int]@);
            assert(rv[kept@[y as int] as int] == rows@[kept@[y as int] as int]@);
        }
    }
    let p = stable_sort_by(n, sign_at, Ghost(s), Ghost(c));
    let mut order: Vec<usize> = Vec::new();
    let mut u: usize = 0;
    while u < n
        invariant
            u <= n,
            n == kept@.len(),
            p@.len() == n,
            forall|i: int| 0 <= i < n ==> #[trigger] p@[i] < n,
            order@.len() == u,
            forall|k: int| 0 <= k < u ==> #[trigger] order@[k] == kept@[p@[k] as int],
        decreases n - u,
    {
        order.push(kept[p[u]]);
        u = u + 1;
    }
    proof {
        let needle_s = needle_of(query@);
        assert(needle@ == needle_s);
        assert forall|i: int, j: int| 0 <= i < j < order@.len() implies order@[i] != order@[j] by {
            assert(p@[i] != p@[j]);
            if p@[i] < p@[j] {
                assert(kept@[p@[i] as int] < kept@[p@[j] as int]);
            } else {
                assert(kept@[p@[j] as int] < kept@[p@[i] as int]);
            }
        }
        assert forall|x: int|
            0 <= x < rv.len() && #[trigger] row_matches_spec(rv[x], needle_s) implies exists|i: int|
            0 <= i < order@.len() && order@[i] == x by {
            assert(row_matches_spec(rows@[x]@, needle@));
            let j = choose|j: int| 0 <= j < kept@.len() && kept@[j] == x;
            assert(covers(p@, n as int, j));
            let u = choose|u: int| 0 <= u < n && p@[u] == j;
            assert(order@[u] == x);
        }
        assert forall|i: int, j: int|
            0 <= i < j < order@.len() && cell_at(rv[#[trigger] order@[i] as int], col as int) is None
            implies cell_at(rv[#[trigger] order@[j] as int], col as int) is None by {
            assert(c(p@[i] as int) <= c(p@[j] as int));
        }
        if total_on_matching(rv, needle_s, fk, col as int, *ty, desc) {
            assert(sign_total(s, n as int)) by {
                assert forall|x: int, y: int| 0 <= x < n && 0 <= y < n implies #[trigger] s(x, y)
                    == -s(y, x) by {
                    assert(row_matches_spec(rv[kept@[x] as int], needle_s));
                    assert(row_matches_spec(rv[kept@[y] as int], needle_s));
                    assert(page_sign(rv, fk, col as int, *ty, desc, kept@[x] as int, kept@[y] as int)
                        == -page_sign(rv, fk, col as int, *ty, desc, kept@[y] as int, kept@[x] as int));
                }
                assert forall|x: int, y: int, z: int|
                    0 <= x < n && 0 <= y < n && 0 <= z < n && #[trigger] s(x, y) <= 0 && #[trigger] s(
                        y,
                        z,
                    ) <= 0 implies s(x, z) <= 0 by {
                    assert(row_matches_spec(rv[kept@[x] as int], needle_s));
                    assert(row_matches_spec(rv[kept@[y] as int], needle_s));
                    assert(row_matches_spec(rv[kept@[z] as int], needle_s));
                    assert(page_sign(rv, fk, col as int, *ty, desc, kept@[x] as int, kept@[y] as int)
                        <= 0);
                    assert(page_sign(rv, fk, col as int, *ty, desc, kept@[y] as int, kept@[z] as int)
                        <= 0);
                }
            }
            assert forall|i: int, j: int| 0 <= i < j < order@.len() implies before_by(
                |x: int, y: int| page_sign(rv, fk, col as int, *ty, desc, x, y),
                #[trigger] order@[i] as int,
                #[trigger] order@[j] as int,
            ) by {
                assert(before_by(s, p@[i] as int, p@[j] as int));
                if p@[i] < p@[j] {
                    assert(kept@[p@[i] as int] < kept@[p@[j] as int]);
                }
            }
        }
    }
    order
}

/// A copy of a row.
pub fn copy_row(r: &Row) -> (out: Row)
    ensures
        out@ == r@,
{
    let values = copy_strings(&r.values);
    let out = Row { values };
    assert(out@ =~= r@);
    out
}

/// `out` is what the grid shows of `rows`: a copy of each row [`visible_order`] picks,
/// in its order.
pub open spec fn rows_shown(
    out: Seq<Row>,
    column_types: Seq<ColumnType>,
    rows: Seq<Row>,
    query: Seq<char>,
    sort: Option<ResultSort>,
    float_ranks: Seq<Option<FloatRank>>,
) -> bool {
    exists|order: Seq<usize>|
        visible_order_ok(order, column_types, rows_view(rows), query, sort, float_ranks)
            && out.len() == order.len() && forall|k: int|
            0 <= k < order.len() ==> (#[trigger] out[k])@ == rows[order[k] as int]@
}

/// The rows the grid actually shows: `rows` narrowed by `query`, then ordered by
/// `sort` — the rows [`visible_order`] picks, in its order.
pub fn visible_rows(
    column_types: &Vec<ColumnType>,
    rows: &Vec<Row>,
    query: &str,
    sort: Option<ResultSort>,
    float_ranks: &Vec<Option<FloatRank>>,
) -> (out: Vec<Row>)
    ensures
        rows_shown(out@, column_types@, rows@, query@, sort, float_ranks@),
{
    let order = visible_order(column_types, rows, query, sort, float_ranks);
    let mut out: Vec<Row> = Vec::new();
    let mut k: usize = 0;
    while k < order.len()
        invariant
            k <= order.len(),
            forall|i: int| 0 <= i < order@.len() ==> #[trigger] order@[i] < rows@.len(),
            out@.len() == k,
            forall|i: int| 0 <= i < k ==> (#[trigger] out@[i])@ == rows@[order@[i] as int]@,
        decreases order.len() - k,
    {
        out.push(copy_row(&rows[order[k]]));
        k = k + 1;
    }
    out
}

/// Whether a new page has the same columns as the shown one, by name and position —
/// only then does the grid's sort carry over to it.
pub fn same_shape(old_names: &Vec<String>, new_columns: &Vec<DbColumn>) -> (b: bool)
    ensures
        b == (old_names@.len() == new_columns@.len() && forall|i: int|
            0 <= i < old_names@.len() ==> old_names@[i]@ == #[trigger] new_columns@[i].name@),
{
    if old_names.len() != new_columns.len() {
        return false;
    }
    let mut i: usize = 0;
    while i < old_names.len()
        invariant
            i <= old_names.len(),
            old_names@.len() == new_columns@.len(),
            forall|j: int| 0 <= j < i ==> old_names@[j]@ == #[trigger] new_columns@[j].name@,
        decreases old_names.len() - i,
    {
        if !str_eq(old_names[i].as_str(), new_columns[i].name.as_str()) {
            return false;
        }
        i = i + 1;
    }
    true
}

/// The sort a new page keeps: the current one when the columns are the same, none
/// otherwise (an index carried to a different shape would point at another column).
pub fn carried_sort(sort: Option<ResultSort>, old_names: &Vec<String>, new_columns: &Vec<DbColumn>) -> (r: Option<ResultSort>)
    ensures
        r == (if old_names@.len() == new_columns@.len() && forall|i: int|
            0 <= i < old_names@.len() ==> old_names@[i]@ == #[trigger] new_columns@[i].name@ {
            sort
        } else {
            None
        }),
{
    if same_shape(old_names, new_columns) {
        sort
    } else {
        None
    }
}

/// The caveat a page-local view carries: only when more rows exist than the page
/// holds, naming exactly what (sorting, filtering) is page-local.
pub fn page_view_caveat(sorted: bool, filtered: bool, has_more: bool) -> (r: Option<&'static str>)
    ensures
        !has_more || (!sorted && !filtered) ==> r is None,
        has_more && sorted && filtered ==> (r matches Some(s) && s@
            == "sorted and filtered within this page only — the result set has more rows, fetch them to order or search across all of it"@),
        has_more && sorted && !filtered ==> (r matches Some(s) && s@
            == "sorted within this page only — the result set has more rows, fetch them for a complete ordering"@),
        has_more && !sorted && filtered ==> (r matches Some(s) && s@
            == "filtered within this page only — the result set has more rows, fetch them to search across all of it"@),
{
    if !has_more {
        return None;
    }
    if sorted && filtered {
        Some(
            "sorted and filtered within this page only — the result set has more rows, fetch them to order or search across all of it",
        )
    } else if sorted {
        Some(
            "sorted within this page only — the result set has more rows, fetch them for a complete ordering",
        )
    } else if filtered {
        Some(
            "filtered within this page only — the result set has more rows, fetch them to search across all of it",
        )
    } else {
        None
    }
}

/// A query plan page as printable lines: each row's values joined by two spaces.
pub fn plan_lines(page: &QueryPage) -> (out: Vec<String>)
    ensures
        out@.len() == page.rows@.len(),
        forall|i: int|
            0 <= i < out@.len() ==> (#[trigger] out@[i])@ == join_with(page.rows@[i]@, "  "@),
{
    let mut out: Vec<String> = Vec::new();
    let mut i: usize = 0;
    while i < page.rows.len()
        invariant
            i <= page.rows.len(),
            out@.len() == i,
            forall|k: int|
                0 <= k < i ==> (#[trigger] out@[k])@ == join_with(page.rows@[k]@, "  "@),
        decreases page.rows.len() - i,
    {
        let line = join_strings(&page.rows[i].values, "  ");
        assert(views(page.rows@[i as int].values@) =~= page.rows@[i as int]@);
        out.push(line);
        i = i + 1;
    }
    out
}

// ---- laws of the ordering ----------------------------------------------------------

/// Text order is a total order: swapping negates it, only equal texts tie, and it is
/// transitive — so a case-only difference always has an answer.
pub proof fn law_text_order_is_total(a: Seq<char>, b: Seq<char>, c: Seq<char>)
    ensures
        text_sign(b, a) == -text_sign(a, b),
        text_sign(a, b) == 0 <==> a == b,
        text_sign(a, b) <= 0 && text_sign(b, c) <= 0 ==> text_sign(a, c) <= 0,
{
    let (la, lb, lc) = (lowercase(a), lowercase(b), lowercase(c));
    crate::order::lemma_lex_flip(la, lb);
    crate::order::lemma_lex_flip(a, b);
    crate::order::lemma_lex_equal(la, lb);
    crate::order::lemma_lex_equal(lb, lc);
    crate::order::lemma_lex_equal(la, lc);
    crate::order::lemma_lex_equal(a, b);
    crate::order::lemma_lex_equal(b, c);
    crate::order::lemma_lex_flip(la, lc);
    crate::order::lemma_lex_flip(lb, lc);
    crate::order::lemma_lex_flip(a, c);
    crate::order::lemma_lex_flip(b, c);
    if text_sign(a, b) <= 0 && text_sign(b, c) <= 0 {
        if lex_sign(la, lb) < 0 && lex_sign(lb, lc) < 0 {
            crate::order::lemma_lex_trans(la, lb, lc);
        } else if lex_sign(la, lb) == 0 && lex_sign(lb, lc) == 0 {
            if lex_sign(a, b) < 0 && lex_sign(b, c) < 0 {
                crate::order::lemma_lex_trans(a, b, c);
            }
        }
    }
}

/// Text-ordered columns (text, bytes, driver-specific, all-NULL) always sort totally,
/// so for them the grid's sorted-view promise holds on every page.
pub proof fn law_text_columns_sort_totally(
    rows: Seq<Seq<Seq<char>>>,
    needle: Seq<char>,
    fk: Seq<Option<FloatRank>>,
    col: int,
    ty: ColumnType,
    desc: bool,
)
    requires
        !(ty is Integer || ty is Float || ty is Bool),
    ensures
        total_on_matching(rows, needle, fk, col, ty, desc),
{
    assert forall|x: int, y: int|
        0 <= x < rows.len() && 0 <= y < rows.len() && row_matches_spec(rows[x], needle)
            && row_matches_spec(rows[y], needle) implies #[trigger] page_sign(rows, fk, col, ty, desc, x, y)
        == -page_sign(rows, fk, col, ty, desc, y, x) by {
        match (cell_at(rows[x], col), cell_at(rows[y], col)) {
            (Some(p), Some(q)) => {
                law_text_order_is_total(p, q, q);
            },
            _ => {},
        }
    }
    assert forall|x: int, y: int, z: int|
        0 <= x < rows.len() && 0 <= y < rows.len() && 0 <= z < rows.len() && row_matches_spec(
            rows[x],
            needle,
        ) && row_matches_spec(rows[y], needle) && row_matches_spec(rows[z], needle)
            && #[trigger] page_sign(rows, fk, col, ty, desc, x, y) <= 0 && #[trigger] page_sign(
            rows,
            fk,
            col,
            ty,
            desc,
            y,
            z,
        ) <= 0 implies page_sign(rows, fk, col, ty, desc, x, z) <= 0 by {
        match (cell_at(rows[x], col), cell_at(rows[y], col), cell_at(rows[z], col)) {
            (Some(p), Some(q), Some(r)) => {
                law_text_order_is_total(p, q, r);
                law_text_order_is_total(r, q, p);
                law_text_order_is_total(p, r, r);
            },
            _ => {},
        }
    }
}

/// A cell the column's own order reads as a value: a recognised boolean rendering in a
/// boolean column, an integer (within `i128`) in a numeric one.
pub open spec fn parses_as_value(v: Seq<char>, ty: ColumnType) -> bool {
    if ty is Bool {
        bool_rank_spec(v) is Some
    } else {
        int_value(v) is Some
    }
}

/// Numeric and boolean columns sort totally whenever every shown cell reads as a value
/// of the column's type (integers; recognised booleans): NULLs go last, and the values
/// compare as numbers. (A NaN, or a cell that falls back to text, can break this.)
pub proof fn law_parsed_columns_sort_totally(
    rows: Seq<Seq<Seq<char>>>,
    needle: Seq<char>,
    fk: Seq<Option<FloatRank>>,
    col: int,
    ty: ColumnType,
    desc: bool,
)
    requires
        ty is Integer || ty is Float || ty is Bool,
        forall|x: int|
            0 <= x < rows.len() && #[trigger] row_matches_spec(rows[x], needle) ==> (cell_at(
                rows[x],
                col,
            ) matches Some(p) ==> parses_as_value(p, ty)),
    ensures
        total_on_matching(rows, needle, fk, col, ty, desc),
{
    assert forall|x: int, y: int|
        0 <= x < rows.len() && 0 <= y < rows.len() && row_matches_spec(rows[x], needle)
            && row_matches_spec(rows[y], needle) implies #[trigger] page_sign(rows, fk, col, ty, desc, x, y)
        == -page_sign(rows, fk, col, ty, desc, y, x) by {
        assert(row_matches_spec(rows[x], needle));
        assert(row_matches_spec(rows[y], needle));
    }
    assert forall|x: int, y: int, z: int|
        0 <= x < rows.len() && 0 <= y < rows.len() && 0 <= z < rows.len() && row_matches_spec(
            rows[x],
            needle,
        ) && row_matches_spec(rows[y], needle) && row_matches_spec(rows[z], needle)
            && #[trigger] page_sign(rows, fk, col, ty, desc, x, y) <= 0 && #[trigger] page_sign(
            rows,
            fk,
            col,
            ty,
            desc,
            y,
            z,
        ) <= 0 implies page_sign(rows, fk, col, ty, desc, x, z) <= 0 by {
        assert(row_matches_spec(rows[x], needle));
        assert(row_matches_spec(rows[y], needle));
        assert(row_matches_spec(rows[z], needle));
    }
}

/// Whenever the sort in force orders the shown rows totally — always with no sort, and
/// on every text-ordered column (see [`law_text_columns_sort_totally`]) — the view is
/// determined: the same page, filter and sort always show the same rows in the same
/// order.
pub proof fn law_the_view_is_determined(
    o1: Seq<usize>,
    o2: Seq<usize>,
    types: Seq<ColumnType>,
    rows: Seq<Seq<Seq<char>>>,
    query: Seq<char>,
    sort: Option<ResultSort>,
    fk: Seq<Option<FloatRank>>,
)
    requires
        visible_order_ok(o1, types, rows, query, sort, fk),
        visible_order_ok(o2, types, rows, query, sort, fk),
        match active_sort(types, sort) {
            Some((col, ty, desc)) => total_on_matching(rows, needle_of(query), fk, col, ty, desc),
            None => true,
        },
    ensures
        o1 == o2,
{
    let needle = needle_of(query);
    let member = |x: int| 0 <= x < rows.len() && row_matches_spec(rows[x], needle);
    match active_sort(types, sort) {
        None => {
            let rel = |x: int, y: int| x < y;
            assert(lists_in_order(o1, member, rel));
            assert(lists_in_order(o2, member, rel));
            lemma_listing_unique(o1, o2, member, rel);
        },
        Some((col, ty, desc)) => {
            let rel = |x: int, y: int|
                before_by(|a: int, b: int| page_sign(rows, fk, col, ty, desc, a, b), x, y);
            assert forall|x: int, y: int|
                #[trigger] member(x) && #[trigger] member(y) && x != y && rel(x, y) implies !rel(
                y,
                x,
            ) by {
                assert(page_sign(rows, fk, col, ty, desc, x, y) == -page_sign(
                    rows,
                    fk,
                    col,
                    ty,
                    desc,
                    y,
                    x,
                ));
            }
            assert(lists_in_order(o1, member, rel));
            assert(lists_in_order(o2, member, rel));
            lemma_listing_unique(o1, o2, member, rel);
        },
    }
}

/// The page a view shows, as a page of its own: row `k` is `rows[o[k]]`.
pub open spec fn reordered_rows(rows: Seq<Seq<Seq<char>>>, o: Seq<usize>) -> Seq<Seq<Seq<char>>> {
    o.map_values(|k: usize| rows[k as int])
}

/// The float ranks that go with [`reordered_rows`].
pub open spec fn reordered_ranks(fk: Seq<Option<FloatRank>>, o: Seq<usize>) -> Seq<Option<FloatRank>> {
    o.map_values(|k: usize| rank_at(fk, k as int))
}

/// Re-applying the same filter and sort to the rows a view shows leaves every row where
/// it is — the sort is stable, so rows already in order stay put — whenever the sort
/// orders the shown rows totally.
pub proof fn law_resorting_is_a_no_op(
    o: Seq<usize>,
    o2: Seq<usize>,
    types: Seq<ColumnType>,
    rows: Seq<Seq<Seq<char>>>,
    query: Seq<char>,
    sort: Option<ResultSort>,
    fk: Seq<Option<FloatRank>>,
)
    requires
        visible_order_ok(o, types, rows, query, sort, fk),
        visible_order_ok(
            o2,
            types,
            reordered_rows(rows, o),
            query,
            sort,
            reordered_ranks(fk, o),
        ),
        match active_sort(types, sort) {
            Some((col, ty, desc)) => total_on_matching(rows, needle_of(query), fk, col, ty, desc),
            None => true,
        },
        o.len() <= usize::MAX,
    ensures
        o2.len() == o.len(),
        forall|i: int| 0 <= i < o2.len() ==> o2[i] == i,
{
    let needle = needle_of(query);
    let r2 = reordered_rows(rows, o);
    let f2 = reordered_ranks(fk, o);
    let id = Seq::new(o.len(), |i: int| i as usize);
    assert forall|i: int| 0 <= i < id.len() implies #[trigger] id[i] as int == i by {}
    assert forall|i: int| 0 <= i < o.len() implies #[trigger] r2[i] == rows[o[i] as int] && f2[i]
        == rank_at(fk, o[i] as int) by {}
    assert forall|i: int| 0 <= i < id.len() implies #[trigger] id[i] < r2.len()
        && row_matches_spec(r2[id[i] as int], needle) by {
        assert(id[i] == i);
        assert(o[i] < rows.len() && row_matches_spec(rows[o[i] as int], needle));
    }
    assert forall|x: int|
        0 <= x < r2.len() && #[trigger] row_matches_spec(r2[x], needle) implies exists|i: int|
        0 <= i < id.len() && id[i] == x by {
        assert(id[x] == x);
    }
    match active_sort(types, sort) {
        None => {
            assert(visible_order_ok(id, types, r2, query, sort, f2));
            law_the_view_is_determined(o2, id, types, r2, query, sort, f2);
        },
        Some((col, ty, desc)) => {
            assert forall|i: int, j: int|
                0 <= i < j < id.len() && cell_at(r2[#[trigger] id[i] as int], col) is None implies cell_at(
                r2[#[trigger] id[j] as int],
                col,
            ) is None by {
                assert(id[i] == i && id[j] == j);
                assert(cell_at(rows[o[i] as int], col) is None);
            }
            assert forall|x: int, y: int|
                0 <= x < r2.len() && 0 <= y < r2.len() implies #[trigger] page_sign(
                r2,
                f2,
                col,
                ty,
                desc,
                x,
                y,
            ) == page_sign(rows, fk, col, ty, desc, o[x] as int, o[y] as int) by {
                assert(r2[x] == rows[o[x] as int] && f2[x] == rank_at(fk, o[x] as int));
                assert(r2[y] == rows[o[y] as int] && f2[y] == rank_at(fk, o[y] as int));
            }
            assert forall|i: int, j: int| 0 <= i < j < id.len() implies before_by(
                |x: int, y: int| page_sign(r2, f2, col, ty, desc, x, y),
                #[trigger] id[i] as int,
                #[trigger] id[j] as int,
            ) by {
                assert(id[i] == i && id[j] == j);
                assert(before_by(
                    |x: int, y: int| page_sign(rows, fk, col, ty, desc, x, y),
                    o[i] as int,
                    o[j] as int,
                ));
                assert(page_sign(r2, f2, col, ty, desc, i, j) == page_sign(
                    rows,
                    fk,
                    col,
                    ty,
                    desc,
                    o[i] as int,
                    o[j] as int,
                ));
            }
            assert(total_on_matching(r2, needle, f2, col, ty, desc)) by {
                assert forall|x: int, y: int|
                    0 <= x < r2.len() && 0 <= y < r2.len() && row_matches_spec(r2[x], needle)
                        && row_matches_spec(r2[y], needle) implies #[trigger] page_sign(
                    r2,
                    f2,
                    col,
                    ty,
                    desc,
                    x,
                    y,
                ) == -page_sign(r2, f2, col, ty, desc, y, x) by {
                    assert(page_sign(r2, f2, col, ty, desc, x, y) == page_sign(
                        rows,
                        fk,
                        col,
                        ty,
                        desc,
                        o[x] as int,
                        o[y] as int,
                    ));
                    assert(page_sign(r2, f2, col, ty, desc, y, x) == page_sign(
                        rows,
                        fk,
                        col,
                        ty,
                        desc,
                        o[y] as int,
                        o[x] as int,
                    ));
                    assert(row_matches_spec(rows[o[x] as int], needle));
                    assert(row_matches_spec(rows[o[y] as int], needle));
                }
                assert forall|x: int, y: int, z: int|
                    0 <= x < r2.len() && 0 <= y < r2.len() && 0 <= z < r2.len() && row_matches_spec(
                        r2[x],
                        needle,
                    ) && row_matches_spec(r2[y], needle) && row_matches_spec(r2[z], needle)
                        && #[trigger] page_sign(r2, f2, col, ty, desc, x, y) <= 0
                        && #[trigger] page_sign(r2, f2, col, ty, desc, y, z) <= 0 implies page_sign(
                    r2,
                    f2,
                    col,
                    ty,
                    desc,
                    x,
                    z,
                ) <= 0 by {
                    assert(page_sign(r2, f2, col, ty, desc, x, y) == page_sign(
                        rows,
                        fk,
                        col,
                        ty,
                        desc,
                        o[x] as int,
                        o[y] as int,
                    ));
                    assert(page_sign(r2, f2, col, ty, desc, y, z) == page_sign(
                        rows,
                        fk,
                        col,
                        ty,
                        desc,
                        o[y] as int,
                        o[z] as int,
                    ));
                    assert(page_sign(r2, f2, col, ty, desc, x, z) == page_sign(
                        rows,
                        fk,
                        col,
                        ty,
                        desc,
                        o[x] as int,
                        o[z] as int,
                    ));
                    assert(row_matches_spec(rows[o[x] as int], needle));
                    assert(row_matches_spec(rows[o[y] as int], needle));
                    assert(row_matches_spec(rows[o[z] as int], needle));
                }
            }
            assert(visible_order_ok(id, types, r2, query, sort, f2));
            law_the_view_is_determined(o2, id, types, r2, query, sort, f2);
        },
    }
}


// ---- the results grid's state --------------------------------------------------------

/// A copy of a column type.
pub fn copy_type(t: &ColumnType) -> (r: ColumnType)
    ensures
        r == *t,
{
    match t {
        ColumnType::Integer => ColumnType::Integer,
        ColumnType::Float => ColumnType::Float,
        ColumnType::Bool => ColumnType::Bool,
        ColumnType::Null => ColumnType::Null,
        ColumnType::Text => ColumnType::Text,
        ColumnType::Bytes => ColumnType::Bytes,
        ColumnType::Other(n) => ColumnType::Other(n.clone()),
    }
}

/// The results grid: the shown page's column names and types, the float ranks of its
/// rows in the sorted column (computed by the caller), every row of the page, the rows
/// shown (filtered, then sorted), the filter text and the sort.
#[derive(Debug)]
pub struct ResultsGrid {
    pub column_names: Vec<String>,
    pub column_types: Vec<ColumnType>,
    pub float_ranks: Vec<Option<FloatRank>>,
    pub all_rows: Vec<Row>,
    pub rows: Vec<Row>,
    pub query: String,
    pub sort: Option<ResultSort>,
}

impl ResultsGrid {
    /// A grid with no page, no filter and no sort.
    pub fn empty() -> (g: ResultsGrid)
        ensures
            g.column_names@.len() == 0 && g.column_types@.len() == 0 && g.float_ranks@.len() == 0,
            g.all_rows@.len() == 0 && g.rows@.len() == 0 && g.query@.len() == 0 && g.sort is None,
    {
        ResultsGrid {
            column_names: Vec::new(),
            column_types: Vec::new(),
            float_ranks: Vec::new(),
            all_rows: Vec::new(),
            rows: Vec::new(),
            query: String::new(),
            sort: None,
        }
    }

    /// Re-derive the rows shown from the page, the filter and the sort — the one
    /// place they are written, so the three can never fall out of step.
    pub fn recompute(&mut self)
        ensures
            rows_shown(
                final(self).rows@,
                old(self).column_types@,
                old(self).all_rows@,
                old(self).query@,
                old(self).sort,
                old(self).float_ranks@,
            ),
            *final(self) == (ResultsGrid { rows: final(self).rows, ..*old(self) }),
    {
        self.rows = visible_rows(
            &self.column_types,
            &self.all_rows,
            self.query.as_str(),
            self.sort,
            &self.float_ranks,
        );
    }

    /// Show a new page (`float_ranks`: its rows' ranks in the column the kept sort
    /// uses). The sort is kept only when the page has the same columns, by name and
    /// position ([`carried_sort`]) — a sort index carried to another shape would point
    /// at an unrelated column; the filter stays; the rows shown are re-derived.
    pub fn set_page(&mut self, page: QueryPage, float_ranks: Vec<Option<FloatRank>>)
        ensures
            final(self).sort == (if old(self).column_names@.len() == page.columns@.len() && forall|
                i: int,
            |
                0 <= i < old(self).column_names@.len() ==> old(self).column_names@[i]@
                    == #[trigger] page.columns@[i].name@ {
                old(self).sort
            } else {
                None
            }),
            final(self).column_names@.len() == page.columns@.len(),
            final(self).column_types@.len() == page.columns@.len(),
            forall|i: int|
                0 <= i < page.columns@.len() ==> #[trigger] final(self).column_names@[i]@
                    == page.columns@[i].name@ && final(self).column_types@[i] == page.columns@[i].ty,
            final(self).all_rows == page.rows,
            final(self).float_ranks == float_ranks,
            final(self).query == old(self).query,
            rows_shown(
                final(self).rows@,
                final(self).column_types@,
                page.rows@,
                old(self).query@,
                final(self).sort,
                float_ranks@,
            ),
    {
        let keep = carried_sort(self.sort, &self.column_names, &page.columns);
        let mut names: Vec<String> = Vec::new();
        let mut types: Vec<ColumnType> = Vec::new();
        let mut i: usize = 0;
        while i < page.columns.len()
            invariant
                i <= page.columns@.len(),
                names@.len() == i && types@.len() == i,
                forall|j: int|
                    0 <= j < i ==> #[trigger] names@[j]@ == page.columns@[j].name@ && types@[j]
                        == page.columns@[j].ty,
            decreases page.columns.len() - i,
        {
            names.push(page.columns[i].name.clone());
            types.push(copy_type(&page.columns[i].ty));
            i = i + 1;
        }
        self.sort = keep;
        self.column_names = names;
        self.column_types = types;
        self.float_ranks = float_ranks;
        self.all_rows = page.rows;
        self.recompute();
    }

    /// A new filter text: the rows shown are re-derived; the sort stays.
    pub fn set_query(&mut self, query: &str)
        ensures
            final(self).query@ == query@,
            rows_shown(
                final(self).rows@,
                old(self).column_types@,
                old(self).all_rows@,
                query@,
                old(self).sort,
                old(self).float_ranks@,
            ),
            final(self).column_names == old(self).column_names,
            final(self).column_types == old(self).column_types,
            final(self).float_ranks == old(self).float_ranks,
            final(self).all_rows == old(self).all_rows,
            final(self).sort == old(self).sort,
    {
        self.query = String::from_str(query);
        self.recompute();
    }

    /// A header click cycled column `col_ix` to `sort` (`float_ranks`: the rows' ranks
    /// in that column): the grid's sort follows ([`result_sort`]) and the rows shown
    /// are re-derived.
    pub fn perform_sort(&mut self, col_ix: usize, sort: ColumnSort, float_ranks: Vec<Option<FloatRank>>)
        ensures
            final(self).sort == match sort {
                ColumnSort::Ascending => Some(ResultSort { col_ix, descending: false }),
                ColumnSort::Descending => Some(ResultSort { col_ix, descending: true }),
                ColumnSort::Default => None,
            },
            final(self).float_ranks == float_ranks,
            rows_shown(
                final(self).rows@,
                old(self).column_types@,
                old(self).all_rows@,
                old(self).query@,
                final(self).sort,
                float_ranks@,
            ),
            final(self).column_names == old(self).column_names,
            final(self).column_types == old(self).column_types,
            final(self).all_rows == old(self).all_rows,
            final(self).query == old(self).query,
    {
        self.sort = result_sort(col_ix, sort);
        self.float_ranks = float_ranks;
        self.recompute();
    }

    /// The toolbar's count: the rows shown and the rows of the page.
    pub fn counts(&self) -> (r: (usize, usize))
        ensures
            r == (self.rows@.len() as usize, self.all_rows@.len() as usize),
    {
        (self.rows.len(), self.all_rows.len())
    }
}

} // verus!
