use vstd::prelude::*;
use vstd::string::StringExecFns;
use crate::clock::{local_offset_seconds, LocalOffset};
use crate::order::Moment;
use crate::text::push_str;

verus! {

/// The caption of a sortable column header: the label, followed by an arrow
/// up or down on the active column (up when ascending).
pub open spec fn sort_header_text(label: Seq<char>, active: bool, asc: bool) -> Seq<char> {
    if !active {
        label
    } else if asc {
        label + " \u{25b2}"@
    } else {
        label + " \u{25bc}"@
    }
}

/// The caption of a sortable column header.
pub fn sort_header_label(label: &str, active: bool, asc: bool) -> (s: String)
    ensures
        s@ == sort_header_text(label@, active, asc),
{
    let mut s = String::from_str(label);
    if active {
        if asc {
            push_str(&mut s, " \u{25b2}");
        } else {
            push_str(&mut s, " \u{25bc}");
        }
    }
    s
}

/// The first second chrono can hold: the start of January 1 of the year
/// 262144 BCE, as seconds since the Unix epoch.
pub const EARLIEST_SECOND: i64 = -8_334_601_228_800;

/// The last second chrono can hold: the end of December 31 of the year
/// 262142, as seconds since the Unix epoch.
pub const LATEST_SECOND: i64 = 8_210_266_876_799;

/// Whether chrono's `DateTime::from_timestamp` accepts the seconds and
/// nanoseconds: the day must lie in chrono's date range, and the nanoseconds
/// must be under one second, or under two in the last second of a minute
/// (a leap second).
pub open spec fn chrono_accepts(secs: i64, nanos: u32) -> bool {
    &&& EARLIEST_SECOND <= secs <= LATEST_SECOND
    &&& (nanos < 1_000_000_000 || (nanos < 2_000_000_000 && secs % 60 == 59))
}

/// Tests whether chrono accepts a moment.
pub fn moment_accepted(secs: i64, nanos: u32) -> (r: bool)
    ensures
        r == chrono_accepts(secs, nanos),
{
    if secs < EARLIEST_SECOND || secs > LATEST_SECOND {
        return false;
    }
    if nanos < 1_000_000_000 {
        return true;
    }
    let shifted: u64 = (secs - EARLIEST_SECOND) as u64;
    assert(EARLIEST_SECOND % 60 == 0);
    assert((secs - EARLIEST_SECOND) % 60 == secs % 60) by (nonlinear_arith)
        requires
            EARLIEST_SECOND % 60 == 0,
            EARLIEST_SECOND == -8_334_601_228_800,
    {
        assert(secs - EARLIEST_SECOND == secs + 60 * 138_910_020_480);
        vstd::arithmetic::div_mod::lemma_mod_multiples_vanish(138_910_020_480, secs as int, 60);
    }
    nanos < 2_000_000_000 && shifted % 60 == 59
}

/// The text chrono writes for a moment seen at a fixed offset from UTC: the
/// moment from `DateTime::from_timestamp`, moved by `with_timezone` to the
/// `FixedOffset` of `offset` seconds east, written by `format` with the pattern.
pub uninterp spec fn fixed_offset_text(secs: i64, nanos: u32, offset: i32, pattern: Seq<char>) -> Seq<char>;

/// The pattern of a repository's last activity: date and time to the minute.
pub open spec fn minute_pattern() -> Seq<char> {
    "%Y-%m-%d %H:%M"@
}

/// Calls chrono: `DateTime::from_timestamp`, `FixedOffset::east_opt`,
/// `with_timezone` and `format(pattern)`. The contract names the text
/// `fixed_offset_text` of the arguments and claims that with the minute
/// pattern it has at least 16 characters (`%Y` writes at least four). Only the
/// minute pattern is admitted, so that the writing cannot fail.
#[verifier::external_body]
fn text_at_offset(secs: i64, nanos: u32, offset: i32, pattern: &str) -> (r: String)
    requires
        chrono_accepts(secs, nanos),
        -86_400 < offset < 86_400,
        pattern@ == minute_pattern(),
    ensures
        r@ == fixed_offset_text(secs, nanos, offset, pattern@),
        r@.len() >= 16,
{
    let moment = chrono::DateTime::from_timestamp(secs, nanos).unwrap();
    let zone = chrono::FixedOffset::east_opt(offset).unwrap();
    moment.with_timezone(&zone).format(pattern).to_string()
}

/// A moment shown as date and time to the minute at the machine's offset from
/// UTC at that moment (the offset taken from the clock for that very moment); a dash where there is none, or where chrono refuses it.
pub fn format_time(t: Option<Moment>) -> (s: String)
    ensures
        t.is_none() ==> s@ == "-"@,
        t matches Some(m) && !chrono_accepts(m.0, m.1) ==> s@ == "-"@,
        t is Some && chrono_accepts(t.unwrap().0, t.unwrap().1) ==> s@.len() >= 16 && (exists|
            zone: LocalOffset,
        |
            zone.moment() == t.unwrap() && -86_400 < zone.seconds() < 86_400 && s@ == fixed_offset_text(
                t.unwrap().0,
                t.unwrap().1,
                zone.seconds(),
                minute_pattern(),
            )),
{
    match t {
        Some(m) => {
            if moment_accepted(m.0, m.1) {
                let zone = local_offset_seconds(m.0, m.1);
                let s = text_at_offset(m.0, m.1, zone.seconds_east(), "%Y-%m-%d %H:%M");
                assert(zone.moment() == m && -86_400 < zone.seconds() < 86_400 && s@ == fixed_offset_text(
                    m.0,
                    m.1,
                    zone.seconds(),
                    minute_pattern(),
                ));
                s
            } else {
                String::from_str("-")
            }
        },
        None => String::from_str("-"),
    }
}

} // verus!
