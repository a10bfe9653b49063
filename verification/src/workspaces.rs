//! Workspace state from the window manager's EWMH root-window properties.

use vstd::prelude::*;
use crate::numbers::{decimal, decimal_chars, parse_unsigned, parse_unsigned_exec};
use crate::text::{
    chars_of, concat_from, find_pat, find_pat_exec, lemma_find_pat, lemma_views_push, split_once, split_pat,
    string_of, trim, trim_bounds, trim_char, trim_end_char_exec, trim_start_char_exec, views,
};
use vstd::utf8::{decode_utf8, encode_scalar, encode_utf8, is_scalar, valid_utf8};

verus! {

/// `"= "`, the separator between a property's name and its value in `xprop` output.
pub open spec fn xprop_separator() -> Seq<char> {
    seq!['=', ' ']
}

/// `", "`, the separator between the strings of an `xprop` list.
pub open spec fn xprop_list_separator() -> Seq<char> {
    seq![',', ' ']
}

/// Parse a `CARDINAL` integer from an `xprop -root` output line of the form
/// `ATOM_NAME(CARDINAL) = N`.
///
/// The text after the first `"= "`, trimmed, must parse as a `usize`.
pub fn parse_xprop_cardinal(line: &str) -> (r: Option<usize>)
    ensures
        match split_once(line@, xprop_separator()) {
            Some(parts) => match parse_unsigned(trim(parts.1), usize::MAX as nat) {
                Some(n) => r == Some(n as usize),
                None => r is None,
            },
            None => r is None,
        },
{
    let v = chars_of(line);
    let sep = vec!['=', ' '];
    assert(sep@ == xprop_separator());
    match find_pat_exec(&v, &sep, 0, v.len()) {
        Some(i) => {
            assert(v@.subrange(0, v@.len() as int) == v@);
            let start = i + 2;
            assert(v@.skip(i + 2) == v@.subrange(start as int, v@.len() as int));
            let (a, b) = trim_bounds(&v, start, v.len());
            match parse_unsigned_exec(&v, a, b, usize::MAX as u64) {
                Some(n) => Some(n as usize),
                None => None,
            }
        },
        None => {
            assert(v@.subrange(0, v@.len() as int) == v@);
            None
        },
    }
}

/// The names an `xprop` string list yields: each piece trimmed of white
/// space and then of `"` quotes, empty pieces dropped.
pub open spec fn xprop_names(pieces: Seq<Seq<char>>) -> Seq<Seq<char>>
    decreases pieces.len(),
{
    if pieces.len() == 0 {
        Seq::empty()
    } else {
        let rest = xprop_names(pieces.drop_last());
        let name = trim_char(trim(pieces.last()), '"');
        if name.len() > 0 {
            rest.push(name)
        } else {
            rest
        }
    }
}

/// Parse a `UTF8_STRING` list from an `xprop -root` output line of the form
/// `ATOM_NAME(UTF8_STRING) = "val1", "val2"`.
///
/// The text after the first `"= "` is split at `", "`; each piece is trimmed
/// and stripped of quotes, and empty results are dropped. A line without
/// `"= "` yields no names.
pub fn parse_xprop_utf8_list(line: &str) -> (r: Vec<String>)
    ensures
        views(r@) == match split_once(line@, xprop_separator()) {
            Some(parts) => xprop_names(split_pat(parts.1, xprop_list_separator())),
            None => Seq::empty(),
        },
{
    let v = chars_of(line);
    let sep = vec!['=', ' '];
    assert(sep@ == xprop_separator());
    assert(v@.subrange(0, v@.len() as int) == v@);
    let mut out: Vec<String> = Vec::new();
    let i = match find_pat_exec(&v, &sep, 0, v.len()) {
        Some(i) => i,
        None => {
            assert(views(out@) == Seq::<Seq<char>>::empty());
            return out;
        },
    };
    let comma = vec![',', ' '];
    assert(comma@ == xprop_list_separator());
    let end = v.len();
    let mut pos = i + 2;
    let ghost values = v@.skip(i + 2);
    assert(values == v@.subrange(pos as int, end as int));
    let ghost mut done: Seq<Seq<char>> = Seq::empty();
    assert(split_once(line@, xprop_separator()) == Some((v@.take(i as int), values)));
    assert(split_pat(values, comma@) == done + split_pat(v@.subrange(pos as int, end as int), comma@));
    loop
        invariant
            i + 2 <= pos <= end == v@.len(),
            comma@ == xprop_list_separator(),
            split_pat(values, comma@) == done + split_pat(v@.subrange(pos as int, end as int), comma@),
            views(out@) == xprop_names(done),
            split_once(line@, xprop_separator()) == Some((v@.take(i as int), values)),
        decreases end - pos,
    {
        let ghost rest = v@.subrange(pos as int, end as int);
        proof {
            lemma_find_pat(rest, comma@);
        }
        match find_pat_exec(&v, &comma, pos, end) {
            Some(j) => {
                let ghost piece = rest.take(j - pos);
                assert(piece == v@.subrange(pos as int, j as int));
                assert(rest.skip(j - pos + 2) == v@.subrange(j + 2, end as int));
                assert(split_pat(rest, comma@) == seq![piece] + split_pat(v@.subrange(j + 2, end as int), comma@));
                push_xprop_name(&v, pos, j, &mut out);
                proof {
                    assert(done.push(piece).drop_last() == done);
                    assert(seq![piece] + split_pat(v@.subrange(j + 2, end as int), comma@) == seq![piece].add(split_pat(v@.subrange(j + 2, end as int), comma@)));
                    assert(done + (seq![piece] + split_pat(v@.subrange(j + 2, end as int), comma@)) == done.push(piece) + split_pat(v@.subrange(j + 2, end as int), comma@));
                    done = done.push(piece);
                }
                pos = j + 2;
            },
            None => {
                assert(split_pat(rest, comma@) == seq![rest]);
                push_xprop_name(&v, pos, end, &mut out);
                proof {
                    assert(done.push(rest).drop_last() == done);
                    assert(done + seq![rest] == done.push(rest));
                    done = done.push(rest);
                }
                return out;
            },
        }
    }
}

/// Append the name that the piece `v[start..end]` yields, if it is not empty.
fn push_xprop_name(v: &Vec<char>, start: usize, end: usize, out: &mut Vec<String>)
    requires
        start <= end <= v.len(),
    ensures
        views(final(out)@) == {
            let name = trim_char(trim(v@.subrange(start as int, end as int)), '"');
            if name.len() > 0 {
                views(old(out)@).push(name)
            } else {
                views(old(out)@)
            }
        },
{
    let (a, b) = trim_bounds(v, start, end);
    let a2 = trim_start_char_exec(v, '"', a, b);
    let b2 = trim_end_char_exec(v, '"', a2, b);
    if a2 < b2 {
        let mut piece: Vec<char> = Vec::new();
        let mut k = a2;
        while k < b2
            invariant
                a2 <= k <= b2 <= v.len(),
                piece@ == v@.subrange(a2 as int, k as int),
            decreases b2 - k,
        {
            piece.push(v[k]);
            k = k + 1;
        }
        let s = string_of(piece.as_slice());
        proof {
            lemma_views_push(out@, s);
        }
        out.push(s);
    }
}


// ── Raw property bytes ────────────────────────────────────────────────────────

/// The little-endian value of four bytes.
pub open spec fn le_u32(b: Seq<u8>) -> int {
    b[0] + 256 * b[1] + 65536 * b[2] + 16777216 * b[3]
}

/// The big-endian value of four bytes.
pub open spec fn be_u32(b: Seq<u8>) -> int {
    b[3] + 256 * b[2] + 65536 * b[1] + 16777216 * b[0]
}

/// `u32::from_ne_bytes`.
///
/// Trusted: std documents it as the integer whose memory representation in
/// the machine's byte order is `bytes`; every target is little- or
/// big-endian, so the result is one of the two readings. Which one depends
/// on the machine and is not stated.
#[verifier::external_body]
fn u32_from_ne_bytes(bytes: [u8; 4]) -> (r: u32)
    ensures
        r == le_u32(bytes@) || r == be_u32(bytes@),
{
    u32::from_ne_bytes(bytes)
}

/// The value of four bytes read in one byte order: big-endian when
/// `big_endian`, little-endian otherwise.
pub open spec fn u32_in_order(b: Seq<u8>, big_endian: bool) -> int {
    if big_endian {
        be_u32(b)
    } else {
        le_u32(b)
    }
}

/// The bytes of an optional property.
pub open spec fn bytes_view(o: Option<&[u8]>) -> Option<Seq<u8>> {
    match o {
        Some(b) => Some(b@),
        None => None,
    }
}

/// The workspace count and current index agree with the number-of-desktops
/// and current-desktop properties read in one byte order: the count is the
/// number read (when four bytes are there), and the current index is the
/// value read when it is below the count, else 0.
pub open spec fn read_in_order(
    count: usize,
    current_idx: usize,
    number: Option<Seq<u8>>,
    current: Option<Seq<u8>>,
    big_endian: bool,
) -> bool {
    &&& match number {
        Some(b) => b.len() >= 4 ==> count == u32_in_order(b, big_endian),
        None => true,
    }
    &&& match (number, current) {
        (Some(_), Some(cb)) => cb.len() >= 4 ==> current_idx == if u32_in_order(cb, big_endian) < count {
            u32_in_order(cb, big_endian)
        } else {
            0
        },
        _ => true,
    }
}

/// The flat format's reading: the count and current index are the two
/// properties read in one byte order (where four bytes are there).
pub open spec fn flat_read_in_order(
    count: usize,
    current_idx: usize,
    number: Option<Seq<u8>>,
    current: Option<Seq<u8>>,
    big_endian: bool,
) -> bool {
    &&& match number {
        Some(b) => b.len() >= 4 ==> count == u32_in_order(b, big_endian),
        None => true,
    }
    &&& match current {
        Some(cb) => cb.len() >= 4 ==> current_idx == u32_in_order(cb, big_endian),
        None => true,
    }
}

/// When the current-desktop property names a workspace below the count,
/// that workspace is the current one: the index is never replaced by 0.
pub proof fn lemma_current_desktop_kept(count: usize, current_idx: usize, nb: Seq<u8>, cb: Seq<u8>, big_endian: bool)
    requires
        read_in_order(count, current_idx, Some(nb), Some(cb), big_endian),
        cb.len() >= 4,
        u32_in_order(cb, big_endian) < count,
    ensures
        current_idx == u32_in_order(cb, big_endian),
{
}

/// Whether this machine stores integers big-endian, found by reading four
/// bytes in its own order.
fn machine_is_big_endian() -> (big: bool) {
    u32_from_ne_bytes([0u8, 0u8, 0u8, 1u8]) == 1
}

/// A 32-bit `CARDINAL` read in the given byte order; `None` when fewer than
/// four bytes are given.
fn cardinal_in_order(bytes: &[u8], big_endian: bool) -> (r: Option<usize>)
    ensures
        bytes@.len() < 4 ==> r is None,
        bytes@.len() >= 4 ==> r == Some(u32_in_order(bytes@, big_endian) as usize),
        bytes@.len() >= 4 ==> u32_in_order(bytes@, big_endian) <= u32::MAX,
{
    if bytes.len() < 4 {
        return None;
    }
    let (b0, b1, b2, b3) = if big_endian {
        (bytes[3] as u32, bytes[2] as u32, bytes[1] as u32, bytes[0] as u32)
    } else {
        (bytes[0] as u32, bytes[1] as u32, bytes[2] as u32, bytes[3] as u32)
    };
    let v: u32 = b0 + 256 * b1 + 65536 * b2 + 16777216 * b3;
    Some(v as usize)
}

/// Parse a single 32-bit `CARDINAL` property value from the raw property
/// bytes, which come in the machine's byte order. `None` when fewer than
/// four bytes are given.
pub fn parse_property_cardinal(bytes: &[u8]) -> (r: Option<usize>)
    ensures
        bytes@.len() < 4 ==> r is None,
        bytes@.len() >= 4 ==> (r matches Some(n) && (n == le_u32(bytes@) || n == be_u32(bytes@))),
{
    if bytes.len() < 4 {
        return None;
    }
    let arr: [u8; 4] = [bytes[0], bytes[1], bytes[2], bytes[3]];
    assert(arr@[0] == bytes@[0] && arr@[1] == bytes@[1] && arr@[2] == bytes@[2] && arr@[3] == bytes@[3]);
    let v = u32_from_ne_bytes(arr);
    Some(v as usize)
}

/// What `String::from_utf8_lossy` makes of `bytes`: the UTF-8 decoding, with
/// each invalid sequence replaced by U+FFFD.
pub uninterp spec fn utf8_lossy(bytes: Seq<u8>) -> Seq<char>;

/// `String::from_utf8_lossy(bytes).into_owned()`.
///
/// Trusted: the result is the named decoding of the bytes; std documents
/// that bytes that are valid UTF-8 decode unchanged, ASCII bytes (below
/// 0x80) are each one character of the same code, and every invalid
/// sequence becomes U+FFFD. So bytes that are not empty decode to at least
/// one character, and U+0000 comes only from a zero byte.
#[verifier::external_body]
fn string_from_utf8_lossy(bytes: &[u8]) -> (s: String)
    ensures
        s@ == utf8_lossy(bytes@),
        valid_utf8(bytes@) ==> s@ == decode_utf8(bytes@),
        bytes@.len() > 0 ==> s@.len() > 0,
        no_zero_byte(bytes@) ==> !s@.contains('\0'),
        (forall|i: int| 0 <= i < bytes@.len() ==> bytes@[i] < 128) ==> s@ == bytes@.map_values(
            |b: u8| b as char,
        ),
{
    String::from_utf8_lossy(bytes).into_owned()
}

/// Scan of a byte string split at zero bytes: the completed non-empty runs
/// and the run still open at the end.
pub open spec fn zero_runs_scan(b: Seq<u8>) -> (Seq<Seq<u8>>, Seq<u8>)
    decreases b.len(),
{
    if b.len() == 0 {
        (Seq::empty(), Seq::empty())
    } else {
        let (done, cur) = zero_runs_scan(b.drop_last());
        if b.last() == 0 {
            (
                if cur.len() > 0 {
                    done.push(cur)
                } else {
                    done
                },
                Seq::empty(),
            )
        } else {
            (done, cur.push(b.last()))
        }
    }
}

/// The non-empty segments of `b` between zero bytes, in order
/// (`split(|&b| b == 0)` with empty segments dropped).
pub open spec fn zero_runs(b: Seq<u8>) -> Seq<Seq<u8>> {
    let (done, cur) = zero_runs_scan(b);
    if cur.len() > 0 {
        done.push(cur)
    } else {
        done
    }
}

/// Each segment decoded.
pub open spec fn decoded(segments: Seq<Seq<u8>>) -> Seq<Seq<char>> {
    segments.map_values(|s: Seq<u8>| utf8_lossy(s))
}

/// Parse a null-separated UTF-8 string list from raw property bytes
/// (`_NET_DESKTOP_NAMES`): empty segments are dropped, each other segment
/// is decoded lossily. No name returned is empty or holds NUL.
pub fn parse_property_names(bytes: &[u8]) -> (r: Vec<String>)
    ensures
        views(r@) == decoded(zero_runs(bytes@)),
        forall|k: int|
            0 <= k < r@.len() && valid_utf8(#[trigger] zero_runs(bytes@)[k]) ==> r@[k]@ == decode_utf8(
                zero_runs(bytes@)[k],
            ),
        forall|k: int| 0 <= k < r@.len() ==> plain_name(#[trigger] r@[k]@),
{
    let mut out: Vec<String> = Vec::new();
    let mut cur: Vec<u8> = Vec::new();
    let mut i: usize = 0;
    while i < bytes.len()
        invariant
            i <= bytes.len(),
            views(out@) == decoded(zero_runs_scan(bytes@.take(i as int)).0),
            cur@ == zero_runs_scan(bytes@.take(i as int)).1,
            no_zero_byte(cur@),
            forall|k: int| 0 <= k < out@.len() ==> plain_name(#[trigger] out@[k]@),
            forall|k: int|
                0 <= k < out@.len() && valid_utf8(#[trigger] zero_runs_scan(bytes@.take(i as int)).0[k])
                    ==> out@[k]@ == decode_utf8(zero_runs_scan(bytes@.take(i as int)).0[k]),
        decreases bytes.len() - i,
    {
        assert(bytes@.take(i + 1).drop_last() =~= bytes@.take(i as int));
        assert(bytes@.take(i + 1).last() == bytes@[i as int]);
        let ghost done = zero_runs_scan(bytes@.take(i as int)).0;
        if bytes[i] == 0 {
            if cur.len() > 0 {
                let s = string_from_utf8_lossy(cur.as_slice());
                proof {
                    lemma_views_push(out@, s);
                    assert(decoded(done.push(cur@)) =~= decoded(done).push(utf8_lossy(cur@)));
                }
                out.push(s);
            }
            cur = Vec::new();
        } else {
            cur.push(bytes[i]);
        }
        i = i + 1;
    }
    assert(bytes@.take(bytes@.len() as int) =~= bytes@);
    let ghost done = zero_runs_scan(bytes@).0;
    if cur.len() > 0 {
        let s = string_from_utf8_lossy(cur.as_slice());
        proof {
            lemma_views_push(out@, s);
            assert(decoded(done.push(cur@)) =~= decoded(done).push(utf8_lossy(cur@)));
        }
        out.push(s);
    }
    out
}


/// The `_NET_DESKTOP_NAMES` value of a list of names: each name in UTF-8,
/// followed by a zero byte.
pub open spec fn names_bytes(names: Seq<Seq<char>>) -> Seq<u8>
    decreases names.len(),
{
    if names.len() == 0 {
        Seq::empty()
    } else {
        names_bytes(names.drop_last()) + encode_utf8(names.last()).push(0u8)
    }
}

/// A name that a zero-separated list can carry: non-empty, without NUL.
pub open spec fn plain_name(n: Seq<char>) -> bool {
    n.len() > 0 && !n.contains('\0')
}

/// No byte of `b` is zero.
pub open spec fn no_zero_byte(b: Seq<u8>) -> bool {
    forall|i: int| 0 <= i < b.len() ==> b[i] != 0
}

/// The UTF-8 encoding of a character other than NUL has no zero byte and
/// at least one byte.
proof fn lemma_scalar_bytes_nonzero(v: u32)
    requires
        v != 0,
        is_scalar(v),
    ensures
        encode_scalar(v).len() > 0,
        no_zero_byte(encode_scalar(v)),
{
    assert(v != 0 && v <= 0x7F ==> ((v & 0x7F) as u8) != 0) by (bit_vector);
    assert((0xC0u8 | (((v >> 6u32) & 0x1Fu32) as u8)) != 0) by (bit_vector);
    assert((0xE0u8 | (((v >> 12u32) & 0x0Fu32) as u8)) != 0) by (bit_vector);
    assert((0xF0u8 | (((v >> 18u32) & 0x7u32) as u8)) != 0) by (bit_vector);
    assert((0x80u8 | ((v & 0x3Fu32) as u8)) != 0) by (bit_vector);
    assert((0x80u8 | (((v >> 6u32) & 0x3Fu32) as u8)) != 0) by (bit_vector);
    assert((0x80u8 | (((v >> 12u32) & 0x3Fu32) as u8)) != 0) by (bit_vector);
}

/// A name without NUL encodes to bytes without zero; a non-empty one to at
/// least one byte.
proof fn lemma_encode_no_zero(n: Seq<char>)
    requires
        !n.contains('\0'),
    ensures
        no_zero_byte(encode_utf8(n)),
        n.len() > 0 ==> encode_utf8(n).len() > 0,
    decreases n.len(),
{
    if n.len() > 0 {
        let c = n[0];
        assert(c != '\0');
        vstd::utf8::char_is_scalar(c);
        if c as u32 == 0 {
            vstd::utf8::char_u32_cast(c, 0u32);
            assert(c == '\0');
        }
        lemma_scalar_bytes_nonzero(c as u32);
        let rest = n.drop_first();
        assert(!rest.contains('\0')) by {
            if rest.contains('\0') {
                let j = choose|j: int| 0 <= j < rest.len() && rest[j] == '\0';
                assert(n[j + 1] == '\0');
            }
        }
        lemma_encode_no_zero(rest);
    }
}

/// Appending bytes without zero extends the open run and completes none.
proof fn lemma_scan_append_nonzero(a: Seq<u8>, b: Seq<u8>)
    requires
        no_zero_byte(b),
    ensures
        zero_runs_scan(a + b) == (zero_runs_scan(a).0, zero_runs_scan(a).1 + b),
    decreases b.len(),
{
    if b.len() == 0 {
        assert(a + b =~= a);
        assert(zero_runs_scan(a).1 + b =~= zero_runs_scan(a).1);
    } else {
        assert((a + b).drop_last() =~= a + b.drop_last());
        lemma_scan_append_nonzero(a, b.drop_last());
        assert(zero_runs_scan(a).1 + b =~= (zero_runs_scan(a).1 + b.drop_last()).push(b.last()));
    }
}

/// The list of names encodes to runs that are exactly the encoded names,
/// with no run left open.
pub proof fn lemma_names_bytes_runs(names: Seq<Seq<char>>)
    requires
        forall|i: int| 0 <= i < names.len() ==> plain_name(#[trigger] names[i]),
    ensures
        zero_runs_scan(names_bytes(names)) == (
            names.map_values(|n: Seq<char>| encode_utf8(n)),
            Seq::<u8>::empty(),
        ),
        zero_runs(names_bytes(names)) == names.map_values(|n: Seq<char>| encode_utf8(n)),
    decreases names.len(),
{
    if names.len() > 0 {
        let prev = names.drop_last();
        assert forall|i: int| 0 <= i < prev.len() implies plain_name(#[trigger] prev[i]) by {
            assert(prev[i] == names[i]);
        }
        lemma_names_bytes_runs(prev);
        let last = names.last();
        assert(plain_name(names[names.len() - 1]));
        lemma_encode_no_zero(last);
        let e = encode_utf8(last);
        let a = names_bytes(prev);
        lemma_scan_append_nonzero(a, e);
        assert(Seq::<u8>::empty() + e =~= e);
        assert(names_bytes(names) =~= (a + e).push(0u8));
        assert((a + e).push(0u8).drop_last() =~= a + e);
        assert(names.map_values(|n: Seq<char>| encode_utf8(n)) =~= prev.map_values(
            |n: Seq<char>| encode_utf8(n),
        ).push(e));
    }
}

/// Reading back a list of names written as a `_NET_DESKTOP_NAMES` value
/// gives the same names: `parsed` is what [`parse_property_names`] returns
/// for `names_bytes(names)`, as its contract describes it.
pub proof fn lemma_property_names_round_trip(names: Seq<Seq<char>>, parsed: Seq<Seq<char>>)
    requires
        forall|i: int| 0 <= i < names.len() ==> plain_name(#[trigger] names[i]),
        parsed.len() == zero_runs(names_bytes(names)).len(),
        forall|k: int|
            0 <= k < parsed.len() && valid_utf8(#[trigger] zero_runs(names_bytes(names))[k]) ==> parsed[k]
                == decode_utf8(zero_runs(names_bytes(names))[k]),
    ensures
        parsed == names,
{
    lemma_names_bytes_runs(names);
    assert forall|k: int| 0 <= k < names.len() implies parsed[k] == names[k] by {
        let e = encode_utf8(names[k]);
        assert(zero_runs(names_bytes(names))[k] == e);
        vstd::utf8::encode_utf8_valid_utf8(names[k]);
        vstd::utf8::encode_utf8_decode_utf8(names[k]);
    }
    assert(parsed =~= names);
}

// ── Workspace state and buttons ───────────────────────────────────────────────

/// Workspace state read from the root window: the number of workspaces,
/// the current one, and the configured names.
#[derive(Debug, Clone, Default, PartialEq, Eq)]
pub struct WorkspaceState {
    /// Number of workspaces.
    pub count: usize,
    /// Index of the current workspace (0 when out of range).
    pub current: usize,
    /// Workspace names, in order; may be shorter than `count`.
    pub names: Vec<String>,
}

/// Settle the values read from the root window: a missing count means one
/// workspace, a missing current index means the first, and a current index
/// beyond the count is replaced by 0.
pub fn settle_workspace_state(count: Option<usize>, current: Option<usize>, names: Vec<String>) -> (s:
    WorkspaceState)
    ensures
        s.count == match count {
            Some(c) => c,
            None => 1usize,
        },
        s.current == match current {
            Some(c) => if c < s.count {
                c
            } else {
                0usize
            },
            None => 0usize,
        },
        s.names@ == names@,
{
    let count = match count {
        Some(c) => c,
        None => 1,
    };
    let current = match current {
        Some(c) => c,
        None => 0,
    };
    let current = if current >= count {
        0
    } else {
        current
    };
    WorkspaceState { count, current, names }
}

/// Build the workspace state from the raw root-window properties
/// (`_NET_NUMBER_OF_DESKTOPS`, `_NET_CURRENT_DESKTOP`, `_NET_DESKTOP_NAMES`),
/// `None` where a property could not be read. Without the number of
/// desktops the state is one workspace, the first, unnamed.
pub fn read_workspace_state(number: Option<&[u8]>, current: Option<&[u8]>, names: Option<&[u8]>) -> (s:
    WorkspaceState)
    ensures
        number is None ==> s.count == 1 && s.current == 0 && s.names@.len() == 0,
        number matches Some(b) ==> {
            &&& b@.len() < 4 ==> s.count == 1
            &&& b@.len() >= 4 ==> (s.count == le_u32(b@) || s.count == be_u32(b@))
            &&& views(s.names@) == match names {
                Some(nb) => decoded(zero_runs(nb@)),
                None => Seq::<Seq<char>>::empty(),
            }
        },
        s.current < s.count || s.current == 0,
        match current {
            Some(cb) => if cb@.len() < 4 {
                s.current == 0
            } else {
                s.current == 0 || s.current == le_u32(cb@) || s.current == be_u32(cb@)
            },
            None => s.current == 0,
        },
        exists|big_endian: bool|
            #[trigger] read_in_order(s.count, s.current, bytes_view(number), bytes_view(current), big_endian),
{
    match number {
        None => {
            let st = WorkspaceState { count: 1, current: 0, names: Vec::new() };
            assert(read_in_order(st.count, st.current, bytes_view(number), bytes_view(current), false));
            st
        },
        Some(nb) => {
            let big = machine_is_big_endian();
            let count = cardinal_in_order(nb, big);
            let cur = match current {
                Some(cb) => cardinal_in_order(cb, big),
                None => None,
            };
            let list = match names {
                Some(b) => parse_property_names(b),
                None => Vec::new(),
            };
            let st = settle_workspace_state(count, cur, list);
            assert(read_in_order(st.count, st.current, bytes_view(number), bytes_view(current), big));
            st
        },
    }
}

/// `c` with an ASCII capital letter made lower case.
pub open spec fn ascii_lower(c: char) -> u32 {
    if 'A' <= c && c <= 'Z' {
        (c as u32 + 32) as u32
    } else {
        c as u32
    }
}

/// `str::eq_ignore_ascii_case`.
pub open spec fn eq_ignore_ascii_case(a: Seq<char>, b: Seq<char>) -> bool {
    a.len() == b.len() && forall|i: int| 0 <= i < a.len() ==> ascii_lower(a[i]) == ascii_lower(b[i])
}

fn ascii_lower_exec(c: char) -> (r: u32)
    ensures
        r == ascii_lower(c),
{
    if 'A' <= c && c <= 'Z' {
        c as u32 + 32
    } else {
        c as u32
    }
}

fn eq_ignore_ascii_case_exec(a: &Vec<char>, b: &Vec<char>) -> (r: bool)
    ensures
        r == eq_ignore_ascii_case(a@, b@),
{
    if a.len() != b.len() {
        return false;
    }
    let mut i: usize = 0;
    while i < a.len()
        invariant
            a.len() == b.len(),
            i <= a.len(),
            forall|k: int| 0 <= k < i ==> ascii_lower(a@[k]) == ascii_lower(b@[k]),
        decreases a.len() - i,
    {
        if ascii_lower_exec(a[i]) != ascii_lower_exec(b[i]) {
            return false;
        }
        i = i + 1;
    }
    true
}

/// `"workspace "`.
pub open spec fn workspace_word() -> Seq<char> {
    seq!['w', 'o', 'r', 'k', 's', 'p', 'a', 'c', 'e', ' ']
}

/// The button label of workspace `idx` (0-based) named `raw`: its 1-based
/// number when the name is empty or is the default `"Workspace N"` (in any
/// ASCII case), the name otherwise.
pub open spec fn workspace_label_of(raw: Seq<char>, idx: nat) -> Seq<char> {
    if eq_ignore_ascii_case(raw, workspace_word() + decimal(idx + 1)) || raw.len() == 0 {
        decimal(idx + 1)
    } else {
        raw
    }
}

/// The button label of workspace `idx` named `raw` (see
/// [`workspace_label_of`]).
pub fn workspace_label(raw: &str, idx: usize) -> (r: String)
    requires
        idx < usize::MAX,
    ensures
        r@ == workspace_label_of(raw@, idx as nat),
{
    let c = chars_of(raw);
    let n = decimal_chars((idx + 1) as u64);
    let w = vec!['w', 'o', 'r', 'k', 's', 'p', 'a', 'c', 'e', ' '];
    assert(w@ == workspace_word());
    let default_name = concat_from(&w, &n, 0);
    assert(n@.skip(0) =~= n@);
    if eq_ignore_ascii_case_exec(&c, &default_name) || c.len() == 0 {
        string_of(n.as_slice())
    } else {
        string_of(c.as_slice())
    }
}

/// One workspace button: its label and whether it is the current one.
#[derive(Debug, Clone, PartialEq, Eq)]
pub struct WorkspaceButton {
    /// Text shown on the button.
    pub label: String,
    /// Whether this is the current workspace (styled `active`).
    pub active: bool,
}

/// The buttons of the switcher: one per workspace, labelled from its name
/// (an absent name counts as empty), the current one active.
pub fn workspace_buttons(state: &WorkspaceState) -> (r: Vec<WorkspaceButton>)
    ensures
        r@.len() == state.count,
        forall|i: int|
            0 <= i < r@.len() ==> {
                &&& (#[trigger] r@[i]).label@ == workspace_label_of(
                    if i < state.names@.len() {
                        state.names@[i]@
                    } else {
                        Seq::<char>::empty()
                    },
                    i as nat,
                )
                &&& r@[i].active == (i == state.current)
            },
{
    let mut r: Vec<WorkspaceButton> = Vec::new();
    let mut idx: usize = 0;
    while idx < state.count
        invariant
            idx <= state.count,
            r@.len() == idx,
            forall|i: int|
                0 <= i < idx ==> {
                    &&& (#[trigger] r@[i]).label@ == workspace_label_of(
                        if i < state.names@.len() {
                            state.names@[i]@
                        } else {
                            Seq::<char>::empty()
                        },
                        i as nat,
                    )
                    &&& r@[i].active == (i == state.current)
                },
        decreases state.count - idx,
    {
        let label = if idx < state.names.len() {
            workspace_label(state.names[idx].as_str(), idx)
        } else {
            workspace_label("", idx)
        };
        proof {
            reveal_strlit("");
        }
        r.push(WorkspaceButton { label, active: idx == state.current });
        idx = idx + 1;
    }
    r
}


// ── Names decoded as one string (flat-config switcher) ───────────────────────

/// Scan of a string split at NUL characters: the completed pieces (empty
/// ones included) and the piece still open.
pub open spec fn nul_scan(s: Seq<char>) -> (Seq<Seq<char>>, Seq<char>)
    decreases s.len(),
{
    if s.len() == 0 {
        (Seq::empty(), Seq::empty())
    } else {
        let (done, cur) = nul_scan(s.drop_last());
        if s.last() == '\0' {
            (done.push(cur), Seq::empty())
        } else {
            (done, cur.push(s.last()))
        }
    }
}

/// `s.split('\0')`: every piece between NULs, empty ones included.
pub open spec fn nul_pieces(s: Seq<char>) -> Seq<Seq<char>> {
    nul_scan(s).0.push(nul_scan(s).1)
}

/// The pieces trimmed of white space, empty results dropped.
pub open spec fn trimmed_names(pieces: Seq<Seq<char>>) -> Seq<Seq<char>>
    decreases pieces.len(),
{
    if pieces.len() == 0 {
        Seq::empty()
    } else {
        trimmed_names(pieces.drop_last()) + if trim(pieces.last()).len() > 0 {
            seq![trim(pieces.last())]
        } else {
            Seq::<Seq<char>>::empty()
        }
    }
}

/// The trimmed piece as a list of at most one name.
pub open spec fn trimmed_one(piece: Seq<char>) -> Seq<Seq<char>> {
    if trim(piece).len() > 0 {
        seq![trim(piece)]
    } else {
        Seq::<Seq<char>>::empty()
    }
}

fn push_trimmed(v: &Vec<char>, start: usize, end: usize, out: &mut Vec<String>)
    requires
        start <= end <= v.len(),
    ensures
        views(final(out)@) == views(old(out)@) + trimmed_one(v@.subrange(start as int, end as int)),
{
    let ghost piece = v@.subrange(start as int, end as int);
    let (a, b) = trim_bounds(v, start, end);
    if a < b {
        let s = string_of(crate::text::slice_of(v, a, b).as_slice());
        proof {
            lemma_views_push(out@, s);
        }
        out.push(s);
        assert(views(out@) =~= views(old(out)@) + trimmed_one(piece));
    } else {
        assert(views(out@) =~= views(old(out)@) + trimmed_one(piece));
    }
}

/// Parse a NUL-separated name list decoded as one string (lossily), each
/// name trimmed of white space and empty names dropped.
pub fn parse_utf8_names(bytes: &[u8]) -> (r: Vec<String>)
    ensures
        views(r@) == trimmed_names(nul_pieces(utf8_lossy(bytes@))),
{
    let text = string_from_utf8_lossy(bytes);
    let v = chars_of(text.as_str());
    let ghost s = v@;
    let mut out: Vec<String> = Vec::new();
    let mut start: usize = 0;
    let mut i: usize = 0;
    while i < v.len()
        invariant
            s == v@,
            start <= i <= v.len(),
            nul_scan(s.take(i as int)).1 == s.subrange(start as int, i as int),
            views(out@) == trimmed_names(nul_scan(s.take(i as int)).0),
        decreases v.len() - i,
    {
        assert(s.take(i + 1).drop_last() =~= s.take(i as int));
        assert(s.take(i + 1).last() == s[i as int]);
        let ghost done = nul_scan(s.take(i as int)).0;
        if v[i] == '\0' {
            let ghost piece = s.subrange(start as int, i as int);
            push_trimmed(&v, start, i, &mut out);
            proof {
                assert(done.push(piece).drop_last() =~= done);
            }
            start = i + 1;
            assert(s.subrange(start as int, i + 1) =~= Seq::<char>::empty());
        } else {
            assert(s.subrange(start as int, i + 1) =~= s.subrange(start as int, i as int).push(s[i as int]));
        }
        i = i + 1;
    }
    assert(s.take(s.len() as int) =~= s);
    let ghost done = nul_scan(s).0;
    let ghost piece = s.subrange(start as int, s.len() as int);
    push_trimmed(&v, start, v.len(), &mut out);
    proof {
        assert(done.push(piece).drop_last() =~= done);
    }
    out
}

/// The flat-config switcher's state from the raw root-window properties
/// (`None` where unreadable): one workspace and the first current when the
/// numbers are missing or short; names decoded as one string. The current
/// index is not checked against the count.
pub fn read_flat_workspace_state(number: Option<&[u8]>, current: Option<&[u8]>, names: Option<&[u8]>) -> (s:
    WorkspaceState)
    ensures
        match number {
            Some(b) if b@.len() >= 4 => s.count == le_u32(b@) || s.count == be_u32(b@),
            _ => s.count == 1,
        },
        match current {
            Some(b) if b@.len() >= 4 => s.current == le_u32(b@) || s.current == be_u32(b@),
            _ => s.current == 0,
        },
        views(s.names@) == match names {
            Some(b) => trimmed_names(nul_pieces(utf8_lossy(b@))),
            None => Seq::<Seq<char>>::empty(),
        },
        exists|big_endian: bool| #[trigger] flat_read_in_order(s.count, s.current, bytes_view(number), bytes_view(current), big_endian),
{
    let big = machine_is_big_endian();
    let count = match number {
        Some(b) => match cardinal_in_order(b, big) {
            Some(c) => c,
            None => 1,
        },
        None => 1,
    };
    let cur = match current {
        Some(b) => match cardinal_in_order(b, big) {
            Some(c) => c,
            None => 0,
        },
        None => 0,
    };
    let list = match names {
        Some(b) => parse_utf8_names(b),
        None => Vec::new(),
    };
    let st = WorkspaceState { count, current: cur, names: list };
    assert(flat_read_in_order(st.count, st.current, bytes_view(number), bytes_view(current), big));
    st
}

} // verus!

