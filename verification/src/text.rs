//! Text primitives the screens are built on: character access, case folding,
//! whitespace trimming, substring search, lexicographic order and decimal
//! numerals, all stated over the `Seq<char>` view of a string.

use vstd::prelude::*;
use vstd::utf8::{valid_utf8, decode_utf8};

verus! {

// ---- std behaviour: Unicode case folding and the whitespace class ---------------------

/// A character of the ASCII range (`char::is_ascii`).
pub open spec fn is_ascii_char(c: char) -> bool {
    (c as u32) < 128
}

/// Every character is ASCII (`str::is_ascii`).
pub open spec fn all_ascii(s: Seq<char>) -> bool {
    forall|k: int| 0 <= k < s.len() ==> is_ascii_char(#[trigger] s[k])
}

/// What `str::to_lowercase` produces for text that is not all ASCII: the Unicode
/// lower-case mapping, a function of the characters alone.
pub uninterp spec fn unicode_lowercase(s: Seq<char>) -> Seq<char>;

/// What `str::to_lowercase` produces: on all-ASCII text exactly what
/// `str::to_ascii_lowercase` does (`A`–`Z` become `a`–`z`), otherwise
/// [`unicode_lowercase`].
pub open spec fn lowercase(s: Seq<char>) -> Seq<char> {
    if all_ascii(s) {
        ascii_lower_seq(s)
    } else {
        unicode_lowercase(s)
    }
}

/// The Unicode `White_Space` property, which `char::is_whitespace` tests: tab, line
/// feed, vertical tab, form feed, carriage return, space, next line, no-break space,
/// ogham space mark, the en quad through hair space, line and paragraph separator,
/// narrow no-break space, medium mathematical space and ideographic space.
pub open spec fn is_white(c: char) -> bool {
    let u = c as u32;
    (0x9 <= u && u <= 0xd) || u == 0x20 || u == 0x85 || u == 0xa0 || u == 0x1680 || (0x2000
        <= u && u <= 0x200a) || u == 0x2028 || u == 0x2029 || u == 0x202f || u == 0x205f || u
        == 0x3000
}

/// Calls `str::to_lowercase`. Claimed: the result is [`lowercase`] of the input — on
/// all-ASCII text the ASCII lower-casing (as std documents, `to_lowercase` maps the
/// letters `A`–`Z` to `a`–`z` and leaves every other ASCII character alone), and
/// otherwise a function of the input's characters alone.
#[verifier::external_body]
pub(crate) fn to_lower(s: &str) -> (r: String)
    ensures
        r@ == lowercase(s@),
        !all_ascii(s@) ==> r@ == unicode_lowercase(s@),
{
    s.to_lowercase()
}

/// `char::is_whitespace`: whether `c` has the `White_Space` property, the code points
/// [`is_white`] lists.
pub(crate) fn is_whitespace(c: char) -> (b: bool)
    ensures
        b == is_white(c),
{
    let u = c as u32;
    (0x9 <= u && u <= 0xd) || u == 0x20 || u == 0x85 || u == 0xa0 || u == 0x1680 || (0x2000 <= u
        && u <= 0x200a) || u == 0x2028 || u == 0x2029 || u == 0x202f || u == 0x205f || u == 0x3000
}

/// Calls `String::push`. Claimed: the string gains `c` at its end and nothing else
/// changes.
#[verifier::external_body]
pub(crate) fn push_char(s: &mut String, c: char)
    ensures
        final(s)@ == old(s)@.push(c),
{
    s.push(c)
}

// ---- building and reading strings ----------------------------------------------------

/// The characters of `s`, in order.
pub fn chars_of(s: &str) -> (v: Vec<char>)
    ensures
        v@ == s@,
{
    let mut v: Vec<char> = Vec::new();
    for c in it: s.chars()
        invariant
            v@ == it.seq().take(it.index() as int),
    {
        v.push(c);
    }
    v
}

/// The number of characters in `s`.
pub fn char_count(s: &str) -> (n: usize)
    ensures
        n == s@.len(),
{
    let v = chars_of(s);
    v.len()
}

/// A string holding exactly the characters of `v`.
pub fn string_of(v: &Vec<char>) -> (s: String)
    ensures
        s@ == v@,
{
    let mut s = String::new();
    let mut i: usize = 0;
    while i < v.len()
        invariant
            i <= v.len(),
            s@ == v@.take(i as int),
        decreases v.len() - i,
    {
        push_char(&mut s, v[i]);
        i = i + 1;
        assert(s@ =~= v@.take(i as int));
    }
    assert(v@.take(v.len() as int) =~= v@);
    s
}

/// Appends the characters of `v` to `s`.
pub fn push_all(s: &mut String, v: &Vec<char>)
    ensures
        final(s)@ == old(s)@ + v@,
{
    let ghost start = s@;
    let mut i: usize = 0;
    while i < v.len()
        invariant
            i <= v.len(),
            s@ == start + v@.take(i as int),
        decreases v.len() - i,
    {
        push_char(s, v[i]);
        i = i + 1;
        assert(s@ =~= start + v@.take(i as int));
    }
    assert(v@.take(v.len() as int) =~= v@);
}

/// `a` followed by `b`.
pub fn cat(a: &str, b: &str) -> (r: String)
    ensures
        r@ == a@ + b@,
{
    let mut r = String::from_str(a);
    push_all(&mut r, &chars_of(b));
    r
}

/// The lower-case mapping of `s`, as characters.
pub fn lower_chars(s: &str) -> (v: Vec<char>)
    ensures
        v@ == lowercase(s@),
{
    let l = to_lower(s);
    chars_of(l.as_str())
}


// ---- copies and byte decoding --------------------------------------------------------

/// A copy of a list of strings.
pub fn copy_strings(v: &Vec<String>) -> (r: Vec<String>)
    ensures
        r@ == v@,
{
    let mut r: Vec<String> = Vec::new();
    let mut i: usize = 0;
    while i < v.len()
        invariant
            i <= v.len(),
            r@ == v@.take(i as int),
        decreases v.len() - i,
    {
        r.push(v[i].clone());
        i = i + 1;
        assert(r@ =~= v@.take(i as int));
    }
    assert(v@.take(v.len() as int) =~= v@);
    r
}

/// Calls `String::from_utf8`. Claimed, as its documentation says: the bytes become a
/// string exactly when they are valid UTF-8, and the string's characters are what the
/// bytes encode.
#[verifier::external_body]
pub(crate) fn utf8_string(bytes: Vec<u8>) -> (r: Option<String>)
    ensures
        match r {
            Some(s) => valid_utf8(bytes@) && s@ == decode_utf8(bytes@),
            None => !valid_utf8(bytes@),
        },
{
    match String::from_utf8(bytes) {
        Ok(s) => Some(s),
        Err(_) => None,
    }
}

// ---- splitting and joining -----------------------------------------------------------

/// `s` cut at every character satisfying `sep` (the separators dropped), as
/// `str::split` does: always at least one piece, empty pieces kept.
pub open spec fn split_by(s: Seq<char>, sep: spec_fn(char) -> bool) -> Seq<Seq<char>>
    decreases s.len(),
{
    if s.len() == 0 {
        seq![Seq::empty()]
    } else {
        let r = split_by(s.drop_last(), sep);
        if sep(s.last()) {
            r.push(Seq::empty())
        } else {
            r.update(r.len() - 1, r.last().push(s.last()))
        }
    }
}

/// Splitting always yields at least one piece.
pub proof fn lemma_split_nonempty(s: Seq<char>, sep: spec_fn(char) -> bool)
    ensures
        split_by(s, sep).len() >= 1,
    decreases s.len(),
{
    if s.len() > 0 {
        lemma_split_nonempty(s.drop_last(), sep);
    }
}

/// The non-empty pieces of `parts`, in order.
pub open spec fn nonempty_parts(parts: Seq<Seq<char>>) -> Seq<Seq<char>>
    decreases parts.len(),
{
    if parts.len() == 0 {
        Seq::empty()
    } else if parts.last().len() > 0 {
        nonempty_parts(parts.drop_last()).push(parts.last())
    } else {
        nonempty_parts(parts.drop_last())
    }
}

/// Every piece `nonempty_parts` keeps is non-empty.
pub proof fn lemma_nonempty_parts(parts: Seq<Seq<char>>)
    ensures
        forall|i: int|
            0 <= i < nonempty_parts(parts).len() ==> (#[trigger] nonempty_parts(parts)[i]).len() > 0,
    decreases parts.len(),
{
    if parts.len() > 0 {
        lemma_nonempty_parts(parts.drop_last());
        let r = nonempty_parts(parts.drop_last());
        if parts.last().len() > 0 {
            assert forall|i: int| 0 <= i < r.push(parts.last()).len() implies (#[trigger] r.push(
                parts.last(),
            )[i]).len() > 0 by {
                if i < r.len() {
                    assert(r.push(parts.last())[i] == r[i]);
                }
            }
        }
    }
}

/// Joining pieces whose last one is non-empty gives a non-empty text.
pub proof fn lemma_join_nonempty(parts: Seq<Seq<char>>, sep: Seq<char>)
    requires
        parts.len() > 0,
        parts.last().len() > 0,
    ensures
        join_with(parts, sep).len() > 0,
{
}

/// `parts` joined with `sep` between neighbours (`[T]::join`): nothing for no parts.
pub open spec fn join_with(parts: Seq<Seq<char>>, sep: Seq<char>) -> Seq<char>
    decreases parts.len(),
{
    if parts.len() == 0 {
        Seq::empty()
    } else if parts.len() == 1 {
        parts[0]
    } else {
        join_with(parts.drop_last(), sep) + sep + parts.last()
    }
}

/// The separator test "is the character `d`".
pub open spec fn char_sep(d: char) -> spec_fn(char) -> bool {
    |c: char| c == d
}

/// `s` cut at every `d` (`str::split` with a character).
pub fn split_on(s: &str, d: char) -> (out: Vec<String>)
    ensures
        views(out@) == split_by(s@, char_sep(d)),
{
    let v = chars_of(s);
    let mut out: Vec<String> = Vec::new();
    let mut cur = String::new();
    let mut i: usize = 0;
    assert(v@.take(0) =~= Seq::<char>::empty());
    assert(views(out@).push(cur@) =~= seq![Seq::<char>::empty()]);
    while i < v.len()
        invariant
            i <= v.len(),
            v@ == s@,
            views(out@).push(cur@) == split_by(v@.take(i as int), char_sep(d)),
        decreases v.len() - i,
    {
        let c = v[i];
        let ghost pre = v@.take(i as int);
        let ghost post = v@.take(i + 1);
        let ghost before = views(out@).push(cur@);
        proof {
            assert(post.drop_last() =~= pre);
            assert(post.last() == c);
            assert(post.len() > 0);
            assert(char_sep(d)(c) == (c == d));
        }
        if c == d {
            let ghost done = out@;
            out.push(cur);
            cur = String::new();
            proof {
                assert(views(out@) =~= views(done).push(before.last()));
                assert(views(out@).push(cur@) =~= before.push(Seq::empty()));
            }
        } else {
            let ghost cur0 = cur@;
            push_char(&mut cur, c);
            proof {
                assert(views(out@).push(cur@) =~= before.update(before.len() - 1, before.last().push(c)));
            }
        }
        i = i + 1;
    }
    assert(v@.take(v.len() as int) =~= v@);
    let ghost done = out@;
    let ghost last = cur@;
    out.push(cur);
    assert(views(out@) =~= views(done).push(last));
    out
}

/// The character views of a list of strings.
pub open spec fn views(v: Seq<String>) -> Seq<Seq<char>> {
    v.map_values(|s: String| s@)
}

/// `parts` joined with `sep` between neighbours.
pub fn join_strings(parts: &Vec<String>, sep: &str) -> (r: String)
    ensures
        r@ == join_with(views(parts@), sep@),
{
    let mut r = String::new();
    let mut i: usize = 0;
    while i < parts.len()
        invariant
            i <= parts.len(),
            r@ == join_with(views(parts@.take(i as int)), sep@),
        decreases parts.len() - i,
    {
        let ghost before = views(parts@.take(i as int));
        if i > 0 {
            r.append(sep);
        }
        r.append(parts[i].as_str());
        proof {
            let now = views(parts@.take(i + 1));
            assert(now.drop_last() =~= before);
            assert(now.last() == parts@[i as int]@);
            if i == 0 {
                assert(r@ =~= now[0]);
            } else {
                assert(r@ =~= join_with(before, sep@) + sep@ + now.last());
            }
        }
        i = i + 1;
    }
    assert(parts@.take(parts.len() as int) =~= parts@);
    r
}

// ---- trimming ------------------------------------------------------------------------

/// The first index at or after `i` that holds a non-whitespace character (or the
/// length, when there is none).
pub open spec fn skip_white(s: Seq<char>, i: int) -> int
    decreases s.len() - i,
{
    if 0 <= i < s.len() && is_white(s[i]) {
        skip_white(s, i + 1)
    } else {
        i
    }
}

/// The end of `s.take(j)` once its trailing whitespace is dropped.
pub open spec fn back_white(s: Seq<char>, j: int) -> int
    decreases j,
{
    if 0 < j <= s.len() && is_white(s[j - 1]) {
        back_white(s, j - 1)
    } else {
        j
    }
}

/// `s` with leading and trailing whitespace removed — what `str::trim` returns.
pub open spec fn trim_seq(s: Seq<char>) -> Seq<char> {
    let a = skip_white(s, 0);
    let b = back_white(s, s.len() as int);
    if a < b {
        s.subrange(a, b)
    } else {
        Seq::empty()
    }
}

proof fn lemma_skip_white_range(s: Seq<char>, i: int)
    requires
        0 <= i <= s.len(),
    ensures
        i <= skip_white(s, i) <= s.len(),
        forall|k: int| i <= k < skip_white(s, i) ==> is_white(#[trigger] s[k]),
        skip_white(s, i) < s.len() ==> !is_white(s[skip_white(s, i)]),
    decreases s.len() - i,
{
    if i < s.len() && is_white(s[i]) {
        lemma_skip_white_range(s, i + 1);
    }
}

proof fn lemma_back_white_range(s: Seq<char>, j: int)
    requires
        0 <= j <= s.len(),
    ensures
        0 <= back_white(s, j) <= j,
        forall|k: int| back_white(s, j) <= k < j ==> is_white(#[trigger] s[k]),
        back_white(s, j) > 0 ==> !is_white(s[back_white(s, j) - 1]),
    decreases j,
{
    if 0 < j && is_white(s[j - 1]) {
        lemma_back_white_range(s, j - 1);
    }
}

/// A trimmed string is empty exactly when every character of the original is
/// whitespace.
pub proof fn lemma_trim_empty(s: Seq<char>)
    ensures
        trim_seq(s).len() == 0 <==> forall|k: int| 0 <= k < s.len() ==> is_white(#[trigger] s[k]),
{
    lemma_skip_white_range(s, 0);
    lemma_back_white_range(s, s.len() as int);
    let a = skip_white(s, 0);
    let b = back_white(s, s.len() as int);
    if a < b {
        assert(!is_white(s[a]));
    } else if a < s.len() {
        // a non-white character exists at a, so the back scan stops after it
        assert(!is_white(s[a]));
        assert(b <= a);
        assert(is_white(s[a]));
    }
}

/// `s` with its leading and trailing whitespace removed.
pub fn trim(s: &str) -> (r: Vec<char>)
    ensures
        r@ == trim_seq(s@),
{
    let v = chars_of(s);
    trim_vec(&v)
}

/// The text of `s` with its leading and trailing whitespace removed, as a string.
pub fn trim_string(s: &str) -> (r: String)
    ensures
        r@ == trim_seq(s@),
{
    let v = trim(s);
    string_of(&v)
}

/// `v` with its leading and trailing whitespace removed.
pub fn trim_vec(v: &Vec<char>) -> (r: Vec<char>)
    ensures
        r@ == trim_seq(v@),
{
    let n = v.len();
    let mut a: usize = 0;
    while a < n && is_whitespace(v[a])
        invariant
            a <= n,
            n == v@.len(),
            skip_white(v@, a as int) == skip_white(v@, 0),
        decreases n - a,
    {
        a = a + 1;
    }
    let mut b: usize = n;
    while b > 0 && is_whitespace(v[b - 1])
        invariant
            b <= n,
            n == v@.len(),
            back_white(v@, b as int) == back_white(v@, n as int),
        decreases b,
    {
        b = b - 1;
    }
    let mut r: Vec<char> = Vec::new();
    if a < b {
        let mut i: usize = a;
        while i < b
            invariant
                a <= i <= b <= n,
                n == v@.len(),
                r@ == v@.subrange(a as int, i as int),
            decreases b - i,
        {
            r.push(v[i]);
            i = i + 1;
            assert(r@ =~= v@.subrange(a as int, i as int));
        }
    }
    proof {
        assert(r@ =~= trim_seq(v@));
    }
    r
}

// ---- substring search ----------------------------------------------------------------

/// `n` occurs in `h` starting at index `i`.
pub open spec fn occurs_at(h: Seq<char>, n: Seq<char>, i: int) -> bool {
    0 <= i && i + n.len() <= h.len() && h.subrange(i, i + n.len()) == n
}

/// `n` occurs somewhere in `h` (`str::contains`).
pub open spec fn contains_seq(h: Seq<char>, n: Seq<char>) -> bool {
    exists|i: int| occurs_at(h, n, i)
}

/// `h` begins with `n` (`str::starts_with`).
pub open spec fn starts_with_seq(h: Seq<char>, n: Seq<char>) -> bool {
    occurs_at(h, n, 0)
}

/// Whether `n` occurs in `h` at index `i`.
pub fn occurs_at_exec(h: &Vec<char>, n: &Vec<char>, i: usize) -> (b: bool)
    ensures
        b == occurs_at(h@, n@, i as int),
{
    if i > h.len() || n.len() > h.len() - i {
        return false;
    }
    let mut k: usize = 0;
    while k < n.len()
        invariant
            k <= n.len(),
            i + n.len() <= h.len(),
            forall|m: int| 0 <= m < k ==> h@[i + m] == n@[m],
        decreases n.len() - k,
    {
        if h[i + k] != n[k] {
            assert(h@.subrange(i as int, i + n.len())[k as int] != n@[k as int]);
            return false;
        }
        k = k + 1;
    }
    assert(h@.subrange(i as int, i + n.len()) =~= n@);
    true
}

/// The first index at which `n` occurs in `h`, if any (`str::find`, counted in
/// characters).
pub fn find_chars(h: &Vec<char>, n: &Vec<char>) -> (r: Option<usize>)
    ensures
        match r {
            Some(i) => occurs_at(h@, n@, i as int) && forall|j: int|
                0 <= j < i ==> !occurs_at(h@, n@, j),
            None => !contains_seq(h@, n@),
        },
{
    if n.len() > h.len() {
        assert forall|j: int| !occurs_at(h@, n@, j) by {}
        return None;
    }
    let last = h.len() - n.len();
    let mut i: usize = 0;
    while i < last
        invariant
            i <= last,
            last == h.len() - n.len(),
            n.len() <= h.len(),
            forall|j: int| 0 <= j < i ==> !occurs_at(h@, n@, j),
        decreases last - i,
    {
        if occurs_at_exec(h, n, i) {
            return Some(i);
        }
        i = i + 1;
    }
    if occurs_at_exec(h, n, last) {
        return Some(last);
    }
    assert forall|j: int| !occurs_at(h@, n@, j) by {
        if 0 <= j && j + n.len() <= h.len() {
            assert(j <= last);
        }
    }
    None
}

/// Whether `n` occurs in `h`.
pub fn contains_chars(h: &Vec<char>, n: &Vec<char>) -> (b: bool)
    ensures
        b == contains_seq(h@, n@),
{
    match find_chars(h, n) {
        Some(i) => {
            assert(occurs_at(h@, n@, i as int));
            true
        },
        None => false,
    }
}

/// Whether `h` begins with `n`.
pub fn starts_with_chars(h: &Vec<char>, n: &Vec<char>) -> (b: bool)
    ensures
        b == starts_with_seq(h@, n@),
{
    occurs_at_exec(h, n, 0)
}

/// Whether two character vectors are equal.
pub fn chars_eq(a: &Vec<char>, b: &Vec<char>) -> (r: bool)
    ensures
        r == (a@ == b@),
{
    if a.len() != b.len() {
        return false;
    }
    let r = occurs_at_exec(a, b, 0);
    assert(a@.subrange(0, b@.len() as int) =~= a@);
    r
}

/// Whether two strings have the same characters.
pub fn str_eq(a: &str, b: &str) -> (r: bool)
    ensures
        r == (a@ == b@),
{
    let av = chars_of(a);
    let bv = chars_of(b);
    chars_eq(&av, &bv)
}

// ---- ASCII case ----------------------------------------------------------------------

/// `char::to_ascii_lowercase`: `A`–`Z` become `a`–`z`; every other character stays.
pub open spec fn ascii_lower(c: char) -> char {
    if 'A' <= c && c <= 'Z' {
        ((c as u32) + 32) as char
    } else {
        c
    }
}

/// `str::to_ascii_lowercase`, character by character.
pub open spec fn ascii_lower_seq(s: Seq<char>) -> Seq<char> {
    s.map_values(|c: char| ascii_lower(c))
}

/// `char::to_ascii_uppercase`: `a`–`z` become `A`–`Z`; every other character stays.
pub open spec fn ascii_upper(c: char) -> char {
    if 'a' <= c && c <= 'z' {
        ((c as u32) - 32) as char
    } else {
        c
    }
}

/// `str::to_ascii_uppercase`, character by character.
pub open spec fn ascii_upper_seq(s: Seq<char>) -> Seq<char> {
    s.map_values(|c: char| ascii_upper(c))
}

/// Upper-casing an ASCII character keeps it ASCII, keeps its whitespace class, and
/// lower-cases to what the character itself lower-cases to.
pub proof fn lemma_ascii_upper_char(c: char)
    requires
        is_ascii_char(c),
    ensures
        is_ascii_char(ascii_upper(c)),
        is_white(ascii_upper(c)) == is_white(c),
        ascii_lower(ascii_upper(c)) == ascii_lower(c),
{
    if 'a' <= c && c <= 'z' {
        let u = c as u32;
        assert(97 <= u <= 122);
        let d = ascii_upper(c);
        assert(d as u32 == u - 32);
    }
}

proof fn lemma_skip_white_upper(s: Seq<char>, i: int)
    requires
        all_ascii(s),
    ensures
        skip_white(ascii_upper_seq(s), i) == skip_white(s, i),
    decreases s.len() - i,
{
    if 0 <= i < s.len() {
        lemma_ascii_upper_char(s[i]);
        assert(ascii_upper_seq(s)[i] == ascii_upper(s[i]));
        lemma_skip_white_upper(s, i + 1);
    }
}

proof fn lemma_back_white_upper(s: Seq<char>, j: int)
    requires
        all_ascii(s),
    ensures
        back_white(ascii_upper_seq(s), j) == back_white(s, j),
    decreases j,
{
    if 0 < j <= s.len() {
        lemma_ascii_upper_char(s[j - 1]);
        assert(ascii_upper_seq(s)[j - 1] == ascii_upper(s[j - 1]));
        lemma_back_white_upper(s, j - 1);
    }
}

/// On ASCII text, trimming commutes with upper-casing, and upper-casing does not
/// change the lower-case form.
pub proof fn lemma_ascii_upper_text(s: Seq<char>)
    requires
        all_ascii(s),
    ensures
        trim_seq(ascii_upper_seq(s)) == ascii_upper_seq(trim_seq(s)),
        all_ascii(trim_seq(s)),
        all_ascii(ascii_upper_seq(s)),
        lowercase(ascii_upper_seq(s)) == lowercase(s),
{
    lemma_skip_white_upper(s, 0);
    lemma_back_white_upper(s, s.len() as int);
    let a = skip_white(s, 0);
    let b = back_white(s, s.len() as int);
    lemma_skip_white_range(s, 0);
    lemma_back_white_range(s, s.len() as int);
    if a < b {
        assert(trim_seq(ascii_upper_seq(s)) =~= ascii_upper_seq(trim_seq(s)));
    } else {
        assert(trim_seq(ascii_upper_seq(s)) =~= ascii_upper_seq(trim_seq(s)));
    }
    assert forall|k: int| 0 <= k < s.len() implies is_ascii_char(#[trigger] ascii_upper_seq(s)[k])
        && ascii_lower(ascii_upper_seq(s)[k]) == ascii_lower(s[k]) by {
        lemma_ascii_upper_char(s[k]);
    }
    assert(ascii_lower_seq(ascii_upper_seq(s)) =~= ascii_lower_seq(s));
}

/// The ASCII lower-case form of `c`.
pub fn ascii_lower_char(c: char) -> (r: char)
    ensures
        r == ascii_lower(c),
{
    if 'A' <= c && c <= 'Z' {
        let u: u32 = (c as u32) + 32;
        assert(u == (c as u32) + 32);
        char_from_ascii(u)
    } else {
        c
    }
}

/// The character with code `u`, which is an ASCII letter code.
fn char_from_ascii(u: u32) -> (c: char)
    requires
        97 <= u <= 122,
    ensures
        c == u as char,
{
    let b: u8 = u as u8;
    b as char
}

/// The ASCII lower-case form of every character of `v`.
pub fn ascii_lower_vec(v: &Vec<char>) -> (r: Vec<char>)
    ensures
        r@ == ascii_lower_seq(v@),
{
    let mut r: Vec<char> = Vec::new();
    let mut i: usize = 0;
    while i < v.len()
        invariant
            i <= v.len(),
            r@ == ascii_lower_seq(v@.take(i as int)),
        decreases v.len() - i,
    {
        let c = ascii_lower_char(v[i]);
        r.push(c);
        i = i + 1;
        assert(r@ =~= ascii_lower_seq(v@.take(i as int)));
    }
    assert(v@.take(v.len() as int) =~= v@);
    r
}

} // verus!
