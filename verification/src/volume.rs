//! Parsing of what `pactl` prints about the default audio sink.

use vstd::prelude::*;
use crate::text::{
    chars_of, contains, contains_exec, find_char, find_char_exec, find_prefixed_line,
    first_line_with_prefix, lines_of, lowercase, lowercase_chars, slice_of, string_of, trim,
    trim_bounds, trim_end_char, trim_end_char_exec,
};

verus! {

/// `"Mute:"`, the prefix of the sink's mute line.
pub open spec fn mute_prefix() -> Seq<char> {
    seq!['M', 'u', 't', 'e', ':']
}

/// `"yes"`.
pub open spec fn yes_word() -> Seq<char> {
    seq!['y', 'e', 's']
}

/// Determine the mute state from `pactl` sink output.
///
/// The first line whose text after leading white space starts with `Mute:`
/// decides: the sink is muted when that line, lower-cased, contains `yes`.
/// Without such a line the sink counts as not muted.
pub fn parse_mute(text: &str) -> (muted: bool)
    ensures
        muted == match first_line_with_prefix(lines_of(text@), mute_prefix()) {
            Some(line) => contains(lowercase(line), yes_word()),
            None => false,
        },
{
    let v = chars_of(text);
    let prefix = vec!['M', 'u', 't', 'e', ':'];
    assert(prefix@ == mute_prefix());
    match find_prefixed_line(&v, &prefix) {
        Some((a, b)) => {
            let low = lowercase_chars(&v, a, b);
            let yes = vec!['y', 'e', 's'];
            assert(yes@ == yes_word());
            contains_exec(&low, &yes)
        },
        None => false,
    }
}


/// `"Volume:"`, the prefix of the sink's volume line.
pub open spec fn volume_prefix() -> Seq<char> {
    seq!['V', 'o', 'l', 'u', 'm', 'e', ':']
}

/// `s.split(c).nth(1)`: the text between the first and second `c` (or the
/// end), when `c` occurs at all.
pub open spec fn second_field(s: Seq<char>, c: char) -> Option<Seq<char>> {
    let i = find_char(s, c);
    if i >= s.len() {
        None
    } else {
        let rest = s.skip(i + 1);
        Some(rest.take(find_char(rest, c)))
    }
}

/// The percentage text of the sink volume in `pactl` output: on the first
/// line starting (after white space) with `Volume:`, the field after the
/// first `/`, trimmed, with trailing `%` signs removed.
pub open spec fn volume_pct_field(text: Seq<char>) -> Option<Seq<char>> {
    match first_line_with_prefix(lines_of(text), volume_prefix()) {
        Some(line) => match second_field(line, '/') {
            Some(f) => Some(trim_end_char(trim(f), '%')),
            None => None,
        },
        None => None,
    }
}

/// Extract the volume percentage text from `pactl` sink output, ready for
/// parsing as a number (e.g. `"70"` from `Volume: front-left: 45875 /  70% /
/// ...`). `None` when there is no volume line or it has no `/`.
pub fn volume_pct_text(text: &str) -> (r: Option<String>)
    ensures
        match (r, volume_pct_field(text@)) {
            (Some(s), Some(f)) => s@ == f,
            (None, None) => true,
            _ => false,
        },
{
    let v = chars_of(text);
    let prefix = vec!['V', 'o', 'l', 'u', 'm', 'e', ':'];
    assert(prefix@ == volume_prefix());
    match find_prefixed_line(&v, &prefix) {
        Some((a, b)) => {
            let ghost line = v@.subrange(a as int, b as int);
            let i = find_char_exec(&v, '/', a, b);
            if i >= b {
                return None;
            }
            let j = find_char_exec(&v, '/', i + 1, b);
            assert(line.skip(i - a + 1) =~= v@.subrange(i + 1, b as int));
            assert(line.skip(i - a + 1).take(j - (i + 1)) =~= v@.subrange(i + 1, j as int));
            let (s, e) = trim_bounds(&v, i + 1, j);
            let e2 = trim_end_char_exec(&v, '%', s, e);
            let out = slice_of(&v, s, e2);
            Some(string_of(out.as_slice()))
        },
        None => None,
    }
}

/// `"change"`.
pub open spec fn change_word() -> Seq<char> {
    seq!['c', 'h', 'a', 'n', 'g', 'e']
}

/// `"sink"`.
pub open spec fn sink_word() -> Seq<char> {
    seq!['s', 'i', 'n', 'k']
}

/// Whether a line of `pactl subscribe` output reports a change to a sink
/// (e.g. `Event 'change' on sink #0`).
pub fn is_sink_change_event(line: &str) -> (b: bool)
    ensures
        b == (contains(line@, change_word()) && contains(line@, sink_word())),
{
    let v = chars_of(line);
    let change = vec!['c', 'h', 'a', 'n', 'g', 'e'];
    let sink = vec!['s', 'i', 'n', 'k'];
    assert(change@ == change_word());
    assert(sink@ == sink_word());
    contains_exec(&v, &change) && contains_exec(&v, &sink)
}

} // verus!

