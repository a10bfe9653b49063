//! Character-sequence helpers shared by the parsers.
//!
//! Strings are reasoned about through their view, a `Seq<char>`. The spec
//! functions here state what the corresponding `str` methods of std do; the
//! executable helpers work on `Vec<char>` copies of the input.

use vstd::prelude::*;

verus! {

/// Copy the characters of `s` into a vector.
pub fn chars_of(s: &str) -> (v: Vec<char>)
    ensures
        v@ == s@,
{
    let mut v: Vec<char> = Vec::new();
    for c in it: s.chars()
        invariant
            v@ == it.seq().take(it.index() as int),
            it.seq() == s@,
    {
        v.push(c);
    }
    v
}

} // verus!

verus! {

/// Appends `c` to `s` (calls `String::push`).
///
/// Trusted: std's `String::push` appends the character to the end of the
/// string; the contract says exactly that of the view.
#[verifier::external_body]
fn push_char(s: &mut String, c: char)
    ensures
        final(s)@ == old(s)@.push(c),
{
    s.push(c);
}

/// Build a `String` holding exactly the characters of `v`.
pub fn string_of(v: &[char]) -> (s: String)
    ensures
        s@ == v@,
{
    let mut s = String::new();
    let mut i: usize = 0;
    while i < v.len()
        invariant
            i <= v.len(),
            s@ == v@.take(i as int),
        decreases v.len() - i,
    {
        push_char(&mut s, v[i]);
        i = i + 1;
        assert(s@ == v@.take(i as int));
    }
    assert(v@.take(v@.len() as int) == v@);
    s
}

/// The characters that `char::is_whitespace` accepts: the Unicode
/// `White_Space` property.
pub open spec fn is_ws(c: char) -> bool {
    ||| c == '\t' || c == '\n' || c == '\u{b}' || c == '\u{c}' || c == '\r' || c == ' '
    ||| c == '\u{85}' || c == '\u{a0}' || c == '\u{1680}'
    ||| ('\u{2000}' <= c && c <= '\u{200a}')
    ||| c == '\u{2028}' || c == '\u{2029}' || c == '\u{202f}' || c == '\u{205f}'
    ||| c == '\u{3000}'
}

/// `char::is_whitespace`.
pub fn is_whitespace(c: char) -> (b: bool)
    ensures
        b == is_ws(c),
{
    c == '\t' || c == '\n' || c == '\u{b}' || c == '\u{c}' || c == '\r' || c == ' '
        || c == '\u{85}' || c == '\u{a0}' || c == '\u{1680}' || ('\u{2000}' <= c && c
        <= '\u{200a}') || c == '\u{2028}' || c == '\u{2029}' || c == '\u{202f}' || c
        == '\u{205f}' || c == '\u{3000}'
}

/// `str::trim_start`: drop leading white space.
pub open spec fn trim_start(s: Seq<char>) -> Seq<char>
    decreases s.len(),
{
    if s.len() > 0 && is_ws(s[0]) {
        trim_start(s.drop_first())
    } else {
        s
    }
}

/// `str::trim_end`: drop trailing white space.
pub open spec fn trim_end(s: Seq<char>) -> Seq<char>
    decreases s.len(),
{
    if s.len() > 0 && is_ws(s.last()) {
        trim_end(s.drop_last())
    } else {
        s
    }
}

/// `str::trim`: drop white space at both ends.
pub open spec fn trim(s: Seq<char>) -> Seq<char> {
    trim_end(trim_start(s))
}

/// `s` begins with `p`.
pub open spec fn starts_with(s: Seq<char>, p: Seq<char>) -> bool {
    p.len() <= s.len() && s.take(p.len() as int) == p
}

/// `s` ends with `p`.
pub open spec fn ends_with(s: Seq<char>, p: Seq<char>) -> bool {
    p.len() <= s.len() && s.skip(s.len() - p.len()) == p
}

/// `p` occurs in `s` at position `i`.
pub open spec fn occurs_at(s: Seq<char>, p: Seq<char>, i: int) -> bool {
    0 <= i && i + p.len() <= s.len() && s.subrange(i, i + p.len()) == p
}

/// `str::contains` with a string pattern.
pub open spec fn contains(s: Seq<char>, p: Seq<char>) -> bool {
    exists|i: int| occurs_at(s, p, i)
}

/// Index of the first position `i` where `v[i..]` starts with white space no more.
pub fn skip_ws_forward(v: &Vec<char>, start: usize, end: usize) -> (i: usize)
    requires
        start <= end <= v.len(),
    ensures
        start <= i <= end,
        trim_start(v@.subrange(start as int, end as int)) == v@.subrange(i as int, end as int),
{
    let mut i = start;
    while i < end && is_whitespace(v[i])
        invariant
            start <= i <= end <= v.len(),
            trim_start(v@.subrange(start as int, end as int)) == trim_start(
                v@.subrange(i as int, end as int),
            ),
        decreases end - i,
    {
        assert(v@.subrange(i as int, end as int).drop_first() == v@.subrange(
            i + 1,
            end as int,
        ));
        i = i + 1;
    }
    i
}

/// Index `j` such that `v[start..j]` is `v[start..end]` with trailing white space removed.
pub fn skip_ws_backward(v: &Vec<char>, start: usize, end: usize) -> (j: usize)
    requires
        start <= end <= v.len(),
    ensures
        start <= j <= end,
        trim_end(v@.subrange(start as int, end as int)) == v@.subrange(start as int, j as int),
{
    let mut j = end;
    while j > start && is_whitespace(v[j - 1])
        invariant
            start <= j <= end <= v.len(),
            trim_end(v@.subrange(start as int, end as int)) == trim_end(
                v@.subrange(start as int, j as int),
            ),
        decreases j - start,
    {
        assert(v@.subrange(start as int, j as int).drop_last() == v@.subrange(
            start as int,
            j - 1,
        ));
        j = j - 1;
    }
    j
}

/// Bounds `(a, b)` of `trim(v[start..end])` inside `v`.
pub fn trim_bounds(v: &Vec<char>, start: usize, end: usize) -> (r: (usize, usize))
    requires
        start <= end <= v.len(),
    ensures
        start <= r.0 <= r.1 <= end,
        trim(v@.subrange(start as int, end as int)) == v@.subrange(r.0 as int, r.1 as int),
{
    let a = skip_ws_forward(v, start, end);
    let b = skip_ws_backward(v, a, end);
    (a, b)
}

/// Whether `p` occurs in `v` at position `i`.
pub fn occurs_at_exec(v: &Vec<char>, p: &Vec<char>, i: usize) -> (b: bool)
    requires
        i <= v.len(),
    ensures
        b == occurs_at(v@, p@, i as int),
{
    if p.len() > v.len() - i {
        return false;
    }
    let mut k: usize = 0;
    while k < p.len()
        invariant
            i + p.len() <= v.len(),
            k <= p.len(),
            forall|m: int| 0 <= m < k ==> v@[i + m] == p@[m],
        decreases p.len() - k,
    {
        if v[i + k] != p[k] {
            assert(v@.subrange(i as int, i + p.len())[k as int] != p@[k as int]);
            return false;
        }
        k = k + 1;
    }
    assert(v@.subrange(i as int, i + p.len()) == p@);
    true
}

/// `str::contains`: whether `p` occurs anywhere in `v`.
pub fn contains_exec(v: &Vec<char>, p: &Vec<char>) -> (b: bool)
    ensures
        b == contains(v@, p@),
{
    if p.len() > v.len() {
        return false;
    }
    let limit = v.len() - p.len();
    let mut i: usize = 0;
    while i < limit
        invariant
            i <= limit == v.len() - p.len(),
            forall|m: int| 0 <= m < i ==> !occurs_at(v@, p@, m),
        decreases limit - i,
    {
        if occurs_at_exec(v, p, i) {
            return true;
        }
        i = i + 1;
    }
    if occurs_at_exec(v, p, limit) {
        return true;
    }
    assert forall|m: int| !occurs_at(v@, p@, m) by {
        if 0 <= m && m + p@.len() <= v@.len() {
            assert(m <= limit);
        }
    }
    false
}

} // verus!

verus! {

/// A line with its `\n` terminator removed also loses one `\r` before it.
pub open spec fn strip_cr(s: Seq<char>) -> Seq<char> {
    if s.len() > 0 && s.last() == '\r' {
        s.drop_last()
    } else {
        s
    }
}

/// Left-to-right scan behind `str::lines`: the finished lines and the
/// characters of the line still open.
pub open spec fn line_scan(s: Seq<char>) -> (Seq<Seq<char>>, Seq<char>)
    decreases s.len(),
{
    if s.len() == 0 {
        (Seq::empty(), Seq::empty())
    } else {
        let (done, cur) = line_scan(s.drop_last());
        if s.last() == '\n' {
            (done.push(strip_cr(cur)), Seq::empty())
        } else {
            (done, cur.push(s.last()))
        }
    }
}

/// `str::lines`: lines split at `\n` (a `\r` before it is dropped too); a
/// final line without terminator is kept when it is not empty.
pub open spec fn lines_of(s: Seq<char>) -> Seq<Seq<char>> {
    let (done, cur) = line_scan(s);
    if cur.len() > 0 {
        done.push(cur)
    } else {
        done
    }
}

/// Bounds of the lines of `v`, in order, as `str::lines` yields them.
pub fn line_bounds(v: &Vec<char>) -> (r: Vec<(usize, usize)>)
    ensures
        r@.len() == lines_of(v@).len(),
        forall|k: int| 0 <= k < r@.len() ==> (#[trigger] r@[k]).0 <= r@[k].1 <= v@.len(),
        forall|k: int|
            0 <= k < r@.len() ==> #[trigger] v@.subrange(r@[k].0 as int, r@[k].1 as int)
                == lines_of(v@)[k],
{
    let mut r: Vec<(usize, usize)> = Vec::new();
    let mut cur_start: usize = 0;
    let mut i: usize = 0;
    while i < v.len()
        invariant
            cur_start <= i <= v.len(),
            line_scan(v@.take(i as int)).1 == v@.subrange(cur_start as int, i as int),
            r@.len() == line_scan(v@.take(i as int)).0.len(),
            forall|k: int| 0 <= k < r@.len() ==> (#[trigger] r@[k]).0 <= r@[k].1 <= v@.len(),
            forall|k: int|
                0 <= k < r@.len() ==> #[trigger] v@.subrange(r@[k].0 as int, r@[k].1 as int)
                    == line_scan(v@.take(i as int)).0[k],
        decreases v.len() - i,
    {
        assert(v@.take(i + 1).drop_last() == v@.take(i as int));
        let ghost cur = v@.subrange(cur_start as int, i as int);
        let ghost prev = line_scan(v@.take(i as int));
        let ghost old_r = r@;
        if v[i] == '\n' {
            let end = if i > cur_start && v[i - 1] == '\r' {
                i - 1
            } else {
                i
            };
            assert(v@.subrange(cur_start as int, end as int) == strip_cr(cur));
            r.push((cur_start, end));
            cur_start = i + 1;
            assert(line_scan(v@.take(i + 1)).0 == prev.0.push(strip_cr(cur)));
            assert forall|k: int| 0 <= k < r@.len() implies #[trigger] v@.subrange(
                r@[k].0 as int,
                r@[k].1 as int,
            ) == line_scan(v@.take(i + 1)).0[k] by {
                if k < old_r.len() {
                    assert(r@[k] == old_r[k]);
                    assert(v@.subrange(old_r[k].0 as int, old_r[k].1 as int) == prev.0[k]);
                }
            }
        } else {
            assert(v@.subrange(cur_start as int, i + 1) == cur.push(v@[i as int]));
            assert(line_scan(v@.take(i + 1)).0 == prev.0);
        }
        i = i + 1;
    }
    assert(v@.take(v@.len() as int) == v@);
    let ghost done = r@;
    if cur_start < v.len() {
        r.push((cur_start, v.len()));
        assert forall|k: int| 0 <= k < r@.len() implies #[trigger] v@.subrange(
            r@[k].0 as int,
            r@[k].1 as int,
        ) == lines_of(v@)[k] by {
            if k < done.len() {
                assert(r@[k] == done[k]);
                assert(v@.subrange(done[k].0 as int, done[k].1 as int) == line_scan(v@).0[k]);
            }
        }
    }
    r
}

/// Whether every character of `s` is ASCII.
pub open spec fn all_ascii(s: Seq<char>) -> bool {
    forall|i: int| 0 <= i < s.len() ==> (s[i] as u32) < 128
}

/// The ASCII lower-case form of `c`: `A`..=`Z` become `a`..=`z`, every other
/// character stays.
pub open spec fn ascii_lower(c: char) -> char {
    if 'A' <= c && c <= 'Z' {
        ((c as u32) + 32) as char
    } else {
        c
    }
}

/// Lower-cased copy of `s` (calls `str::to_lowercase`).
///
/// Trusted: the result of std's Unicode lower-casing is named, not
/// spelled out; it depends on the argument alone. Of ASCII text std
/// documents the plain ASCII mapping: each upper-case letter becomes its
/// lower-case letter and every other character stays.
#[verifier::external_body]
fn to_lowercase(s: &str) -> (r: String)
    ensures
        r@ == lowercase(s@),
        all_ascii(s@) ==> r@ == s@.map_values(|c: char| ascii_lower(c)),
{
    s.to_lowercase()
}

/// What `str::to_lowercase` returns for a string (Unicode case mapping).
pub uninterp spec fn lowercase(s: Seq<char>) -> Seq<char>;

/// Lower-cased characters of `v[start..end]`.
pub fn lowercase_chars(v: &Vec<char>, start: usize, end: usize) -> (r: Vec<char>)
    requires
        start <= end <= v.len(),
    ensures
        r@ == lowercase(v@.subrange(start as int, end as int)),
        all_ascii(v@.subrange(start as int, end as int)) ==> r@ == v@.subrange(start as int, end as int).map_values(
            |c: char| ascii_lower(c),
        ),
{
    let piece = string_of(slice_of(v, start, end).as_slice());
    let low = to_lowercase(piece.as_str());
    chars_of(low.as_str())
}

/// Copy of `v[start..end]`.
pub fn slice_of(v: &Vec<char>, start: usize, end: usize) -> (r: Vec<char>)
    requires
        start <= end <= v.len(),
    ensures
        r@ == v@.subrange(start as int, end as int),
{
    let mut r: Vec<char> = Vec::new();
    let mut i = start;
    while i < end
        invariant
            start <= i <= end <= v.len(),
            r@ == v@.subrange(start as int, i as int),
        decreases end - i,
    {
        r.push(v[i]);
        i = i + 1;
    }
    r
}

} // verus!

verus! {

/// Whether `v[start..end]` begins with `p`.
pub fn starts_with_at(v: &Vec<char>, p: &Vec<char>, start: usize, end: usize) -> (b: bool)
    requires
        start <= end <= v.len(),
    ensures
        b == starts_with(v@.subrange(start as int, end as int), p@),
{
    if p.len() > end - start {
        return false;
    }
    let r = occurs_at_exec(v, p, start);
    assert(v@.subrange(start as int, end as int).take(p@.len() as int) == v@.subrange(
        start as int,
        start + p@.len(),
    ));
    r
}

/// Index of the first `c` in `s`, or `s.len()` when there is none.
pub open spec fn find_char(s: Seq<char>, c: char) -> int
    decreases s.len(),
{
    if s.len() == 0 {
        0
    } else if s[0] == c {
        0
    } else {
        1 + find_char(s.drop_first(), c)
    }
}

/// Facts about `find_char`: it is an index up to the length, and no `c`
/// comes before it.
pub proof fn lemma_find_char(s: Seq<char>, c: char)
    ensures
        0 <= find_char(s, c) <= s.len(),
        find_char(s, c) < s.len() ==> s[find_char(s, c)] == c,
        forall|k: int| 0 <= k < find_char(s, c) ==> s[k] != c,
    decreases s.len(),
{
    if s.len() > 0 && s[0] != c {
        lemma_find_char(s.drop_first(), c);
        assert forall|k: int| 0 <= k < find_char(s, c) implies s[k] != c by {
            if k > 0 {
                assert(s[k] == s.drop_first()[k - 1]);
            }
        }
    }
}

/// `find_char` is the unique index with those facts.
pub proof fn lemma_find_char_unique(s: Seq<char>, c: char, i: int)
    requires
        0 <= i <= s.len(),
        i < s.len() ==> s[i] == c,
        forall|k: int| 0 <= k < i ==> s[k] != c,
    ensures
        find_char(s, c) == i,
    decreases s.len(),
{
    if s.len() > 0 && i > 0 {
        assert forall|k: int| 0 <= k < i - 1 implies s.drop_first()[k] != c by {
            assert(s.drop_first()[k] == s[k + 1]);
        }
        lemma_find_char_unique(s.drop_first(), c, i - 1);
    }
}

/// Position of the first `c` in `v[start..end]` (as an index into `v`), or `end`.
pub fn find_char_exec(v: &Vec<char>, c: char, start: usize, end: usize) -> (i: usize)
    requires
        start <= end <= v.len(),
    ensures
        start <= i <= end,
        i - start == find_char(v@.subrange(start as int, end as int), c),
{
    let mut i = start;
    while i < end && v[i] != c
        invariant
            start <= i <= end <= v.len(),
            forall|k: int| start <= k < i ==> v@[k] != c,
        decreases end - i,
    {
        i = i + 1;
    }
    proof {
        let s = v@.subrange(start as int, end as int);
        assert forall|k: int| 0 <= k < i - start implies s[k] != c by {
            assert(s[k] == v@[start + k]);
        }
        lemma_find_char_unique(s, c, i - start);
    }
    i
}

/// `str::trim_end_matches` with a character: drop every trailing `c`.
pub open spec fn trim_end_char(s: Seq<char>, c: char) -> Seq<char>
    decreases s.len(),
{
    if s.len() > 0 && s.last() == c {
        trim_end_char(s.drop_last(), c)
    } else {
        s
    }
}

/// `str::trim_matches` with a character: drop every leading and trailing `c`.
pub open spec fn trim_char(s: Seq<char>, c: char) -> Seq<char> {
    trim_end_char(trim_start_char(s, c), c)
}

/// `str::trim_start_matches` with a character: drop every leading `c`.
pub open spec fn trim_start_char(s: Seq<char>, c: char) -> Seq<char>
    decreases s.len(),
{
    if s.len() > 0 && s[0] == c {
        trim_start_char(s.drop_first(), c)
    } else {
        s
    }
}

/// End index `j` such that `v[start..j]` is `trim_end_char(v[start..end], c)`.
pub fn trim_end_char_exec(v: &Vec<char>, c: char, start: usize, end: usize) -> (j: usize)
    requires
        start <= end <= v.len(),
    ensures
        start <= j <= end,
        trim_end_char(v@.subrange(start as int, end as int), c) == v@.subrange(
            start as int,
            j as int,
        ),
{
    let mut j = end;
    while j > start && v[j - 1] == c
        invariant
            start <= j <= end <= v.len(),
            trim_end_char(v@.subrange(start as int, end as int), c) == trim_end_char(
                v@.subrange(start as int, j as int),
                c,
            ),
        decreases j - start,
    {
        assert(v@.subrange(start as int, j as int).drop_last() == v@.subrange(
            start as int,
            j - 1,
        ));
        j = j - 1;
    }
    j
}

/// Start index `i` such that `v[i..end]` is `trim_start_char(v[start..end], c)`.
pub fn trim_start_char_exec(v: &Vec<char>, c: char, start: usize, end: usize) -> (i: usize)
    requires
        start <= end <= v.len(),
    ensures
        start <= i <= end,
        trim_start_char(v@.subrange(start as int, end as int), c) == v@.subrange(
            i as int,
            end as int,
        ),
{
    let mut i = start;
    while i < end && v[i] == c
        invariant
            start <= i <= end <= v.len(),
            trim_start_char(v@.subrange(start as int, end as int), c) == trim_start_char(
                v@.subrange(i as int, end as int),
                c,
            ),
        decreases end - i,
    {
        assert(v@.subrange(i as int, end as int).drop_first() == v@.subrange(
            i + 1,
            end as int,
        ));
        i = i + 1;
    }
    i
}

} // verus!

verus! {

/// The first line whose text after leading white space begins with `p`.
pub open spec fn first_line_with_prefix(ls: Seq<Seq<char>>, p: Seq<char>) -> Option<Seq<char>>
    decreases ls.len(),
{
    if ls.len() == 0 {
        None
    } else if starts_with(trim_start(ls[0]), p) {
        Some(ls[0])
    } else {
        first_line_with_prefix(ls.drop_first(), p)
    }
}

/// Bounds in `v` of `first_line_with_prefix(lines_of(v), p)`.
pub fn find_prefixed_line(v: &Vec<char>, p: &Vec<char>) -> (r: Option<(usize, usize)>)
    ensures
        match r {
            Some((a, b)) => a <= b <= v@.len() && first_line_with_prefix(lines_of(v@), p@)
                == Some(v@.subrange(a as int, b as int)),
            None => first_line_with_prefix(lines_of(v@), p@) is None,
        },
{
    let bounds = line_bounds(v);
    let ghost ls = lines_of(v@);
    assert(ls.skip(0) == ls);
    let mut k: usize = 0;
    while k < bounds.len()
        invariant
            k <= bounds@.len() == ls.len(),
            ls == lines_of(v@),
            forall|m: int| 0 <= m < bounds@.len() ==> (#[trigger] bounds@[m]).0 <= bounds@[m].1 <= v@.len(),
            forall|m: int|
                0 <= m < bounds@.len() ==> #[trigger] v@.subrange(bounds@[m].0 as int, bounds@[m].1 as int)
                    == ls[m],
            first_line_with_prefix(ls, p@) == first_line_with_prefix(ls.skip(k as int), p@),
        decreases bounds.len() - k,
    {
        let (a, b) = bounds[k];
        assert(v@.subrange(a as int, b as int) == ls[k as int]);
        assert(ls.skip(k as int)[0] == ls[k as int]);
        let i = skip_ws_forward(v, a, b);
        if starts_with_at(v, p, i, b) {
            return Some((a, b));
        }
        assert(ls.skip(k as int).drop_first() == ls.skip(k + 1));
        k = k + 1;
    }
    None
}

} // verus!

verus! {

/// Index of the first occurrence of `p` in `s`.
pub open spec fn find_pat(s: Seq<char>, p: Seq<char>) -> Option<int>
    decreases s.len(),
{
    if p.len() > s.len() {
        None
    } else if s.take(p.len() as int) == p {
        Some(0)
    } else if s.len() == 0 {
        None
    } else {
        match find_pat(s.drop_first(), p) {
            Some(i) => Some(i + 1),
            None => None,
        }
    }
}

/// `find_pat` gives the least index where `p` occurs.
pub proof fn lemma_find_pat(s: Seq<char>, p: Seq<char>)
    ensures
        match find_pat(s, p) {
            Some(i) => occurs_at(s, p, i) && forall|j: int| 0 <= j < i ==> !occurs_at(s, p, j),
            None => forall|j: int| !occurs_at(s, p, j),
        },
    decreases s.len(),
{
    if p.len() > s.len() {
    } else if s.take(p.len() as int) == p {
        assert(s.subrange(0, p.len() as int) == p);
    } else if s.len() == 0 {
    } else {
        lemma_find_pat(s.drop_first(), p);
        let t = s.drop_first();
        assert forall|j: int| 0 < j && occurs_at(s, p, j) implies occurs_at(t, p, j - 1) by {
            assert(t.subrange(j - 1, j - 1 + p.len()) == s.subrange(j, j + p.len()));
        }
        assert forall|j: int| 0 < j && occurs_at(t, p, j - 1) implies occurs_at(s, p, j) by {
            assert(t.subrange(j - 1, j - 1 + p.len()) == s.subrange(j, j + p.len()));
        }
        assert(!occurs_at(s, p, 0)) by {
            assert(s.subrange(0, p.len() as int) == s.take(p.len() as int));
        }
        match find_pat(t, p) {
            Some(i) => {
                assert forall|j: int| 0 <= j < i + 1 implies !occurs_at(s, p, j) by {
                    if j > 0 {
                        assert(!occurs_at(t, p, j - 1));
                    }
                }
            },
            None => {
                assert forall|j: int| !occurs_at(s, p, j) by {
                    if j > 0 {
                        assert(!occurs_at(t, p, j - 1));
                    }
                }
            },
        }
    }
}

/// Position of the first occurrence of `p` in `v[start..end]` (as an index into `v`).
pub fn find_pat_exec(v: &Vec<char>, p: &Vec<char>, start: usize, end: usize) -> (r: Option<usize>)
    requires
        start <= end <= v.len(),
    ensures
        match r {
            Some(i) => start <= i && i + p@.len() <= end && find_pat(
                v@.subrange(start as int, end as int),
                p@,
            ) == Some(i - start),
            None => find_pat(v@.subrange(start as int, end as int), p@) is None,
        },
{
    let ghost s = v@.subrange(start as int, end as int);
    proof {
        lemma_find_pat(s, p@);
    }
    if p.len() > end - start {
        assert(forall|j: int| !occurs_at(s, p@, j));
        assert(find_pat(s, p@) is None);
        return None;
    }
    let limit = end - p.len();
    let mut i = start;
    while i < limit
        invariant
            start <= i <= limit,
            limit + p@.len() == end <= v@.len(),
            s == v@.subrange(start as int, end as int),
            forall|j: int| 0 <= j < i - start ==> !occurs_at(s, p@, j),
        decreases limit - i,
    {
        if occurs_at_exec(v, p, i) {
            proof {
                lemma_occurs_at_offset(v@, p@, start as int, end as int, i as int);
                lemma_find_pat(s, p@);
            }
            return Some(i);
        }
        proof {
            lemma_occurs_at_offset(v@, p@, start as int, end as int, i as int);
        }
        i = i + 1;
    }
    proof {
        lemma_occurs_at_offset(v@, p@, start as int, end as int, limit as int);
        lemma_find_pat(s, p@);
    }
    if occurs_at_exec(v, p, limit) {
        return Some(limit);
    }
    assert forall|j: int| !occurs_at(s, p@, j) by {
        if 0 <= j && j + p@.len() <= s.len() {
            assert(j <= limit - start);
        }
    }
    None
}

/// An occurrence inside a window is an occurrence in the whole sequence,
/// shifted by the window's start.
pub proof fn lemma_occurs_at_offset(v: Seq<char>, p: Seq<char>, start: int, end: int, i: int)
    requires
        0 <= start <= i,
        i + p.len() <= end <= v.len(),
    ensures
        occurs_at(v.subrange(start, end), p, i - start) == occurs_at(v, p, i),
{
    assert(v.subrange(start, end).subrange(i - start, i - start + p.len()) == v.subrange(
        i,
        i + p.len(),
    ));
}

} // verus!

verus! {

/// `str::split_once` with a string pattern.
pub open spec fn split_once(s: Seq<char>, p: Seq<char>) -> Option<(Seq<char>, Seq<char>)> {
    match find_pat(s, p) {
        Some(i) => Some((s.take(i), s.skip(i + p.len()))),
        None => None,
    }
}

/// `str::split` with a non-empty string pattern: the pieces between
/// non-overlapping occurrences of `p`, found left to right.
pub open spec fn split_pat(s: Seq<char>, p: Seq<char>) -> Seq<Seq<char>>
    decreases s.len(),
{
    if p.len() == 0 {
        seq![s]
    } else {
        match find_pat(s, p) {
            Some(i) => {
                proof {
                    lemma_find_pat(s, p);
                }
                seq![s.take(i)] + split_pat(s.skip(i + p.len()), p)
            },
            None => seq![s],
        }
    }
}

/// The views of a sequence of strings.
pub open spec fn views(v: Seq<String>) -> Seq<Seq<char>> {
    v.map_values(|s: String| s@)
}

/// Pushing a string pushes its view.
pub proof fn lemma_views_push(v: Seq<String>, s: String)
    ensures
        views(v.push(s)) == views(v).push(s@),
{
    assert(views(v.push(s)) =~= views(v).push(s@));
}


/// Whether `a` and `b` hold the same characters.
pub fn chars_eq(a: &Vec<char>, b: &Vec<char>) -> (r: bool)
    ensures
        r == (a@ == b@),
{
    if a.len() != b.len() {
        return false;
    }
    let mut i: usize = 0;
    while i < a.len()
        invariant
            a.len() == b.len(),
            i <= a.len(),
            forall|k: int| 0 <= k < i ==> a@[k] == b@[k],
        decreases a.len() - i,
    {
        if a[i] != b[i] {
            return false;
        }
        i = i + 1;
    }
    assert(a@ =~= b@);
    true
}

/// Whether `v` begins with `p`.
pub fn has_prefix(v: &Vec<char>, p: &Vec<char>) -> (r: bool)
    ensures
        r == starts_with(v@, p@),
{
    let r = starts_with_at(v, p, 0, v.len());
    assert(v@.subrange(0, v@.len() as int) =~= v@);
    r
}

/// `a` followed by `b[from..]`.
pub fn concat_from(a: &Vec<char>, b: &Vec<char>, from: usize) -> (r: Vec<char>)
    requires
        from <= b.len(),
    ensures
        r@ == a@ + b@.skip(from as int),
{
    let mut r: Vec<char> = Vec::new();
    let mut i: usize = 0;
    while i < a.len()
        invariant
            i <= a.len(),
            r@ == a@.take(i as int),
        decreases a.len() - i,
    {
        r.push(a[i]);
        i = i + 1;
        assert(r@ =~= a@.take(i as int));
    }
    let mut j: usize = from;
    while j < b.len()
        invariant
            from <= j <= b.len(),
            i == a.len(),
            r@ == a@ + b@.subrange(from as int, j as int),
        decreases b.len() - j,
    {
        r.push(b[j]);
        j = j + 1;
        assert(r@ =~= a@ + b@.subrange(from as int, j as int));
    }
    assert(b@.subrange(from as int, b@.len() as int) =~= b@.skip(from as int));
    r
}

} // verus!

