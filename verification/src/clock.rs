//! The clock widget's text: an instant shown at a fixed offset from UTC,
//! written with a strftime-style format.

use vstd::prelude::*;
use crate::validation::opt_view;
use std::fmt::Write;

verus! {

/// What chrono writes for the instant `secs` seconds and `nanos`
/// nanoseconds after the Unix epoch, shown at `offset_secs` seconds east of
/// UTC with the strftime-style `format`; `None` when the instant or the
/// offset is out of chrono's range or the format cannot be written.
pub uninterp spec fn chrono_display(secs: int, nanos: nat, offset_secs: int, format: Seq<char>) -> Option<
    Seq<char>,
>;

/// chrono's `DateTime::from_timestamp`, `FixedOffset::east_opt`,
/// `with_timezone` and `format`, written into a `String`.
///
/// Trusted: the text is the named result of the arguments; chrono's source
/// refuses (`None`) an offset of a whole day or more in either direction.
#[verifier::external_body]
fn chrono_format(secs: i64, nanos: u32, offset_secs: i32, format: &str) -> (r: Option<String>)
    ensures
        opt_view(r) == chrono_display(secs as int, nanos as nat, offset_secs as int, format@),
        !(-86_400 < offset_secs < 86_400) ==> r is None,
{
    let utc = chrono::DateTime::from_timestamp(secs, nanos)?;
    let offset = chrono::FixedOffset::east_opt(offset_secs)?;
    let mut out = String::new();
    match write!(out, "{}", utc.with_timezone(&offset).format(format)) {
        Ok(()) => Some(out),
        Err(_) => None,
    }
}

/// The clock text for the instant `secs`.`nanos` after the Unix epoch, in
/// the local time zone `offset_secs` seconds east of UTC, written with
/// `format` (e.g. `"%H:%M:%S"`); `None` when chrono cannot write it.
pub fn clock_display(secs: i64, nanos: u32, offset_secs: i32, format: &str) -> (r: Option<String>)
    ensures
        opt_view(r) == chrono_display(secs as int, nanos as nat, offset_secs as int, format@),
        !(-86_400 < offset_secs < 86_400) ==> r is None,
{
    chrono_format(secs, nanos, offset_secs, format)
}

} // verus!
