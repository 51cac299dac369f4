//! The wall clock, read through `chrono`. Nothing is stated of what it
//! returns: times depend on when and where the program runs.
use vstd::prelude::*;
use crate::text::decimal;

verus! {

/// `s` preceded by as many `0` as it takes to reach `w` characters.
pub open spec fn zero_pad(s: Seq<char>, w: nat) -> Seq<char> {
    if s.len() < w {
        Seq::new((w - s.len()) as nat, |i: int| '0') + s
    } else {
        s
    }
}

/// How `%Y` renders a year: four digits, zero-padded, for years 0 to 9999;
/// other years carry a sign and at least four digits.
pub open spec fn year_text(y: int) -> Seq<char> {
    if 0 <= y <= 9999 {
        zero_pad(decimal(y as nat), 4)
    } else if y < 0 {
        seq!['-'] + zero_pad(decimal((-y) as nat), 4)
    } else {
        seq!['+'] + zero_pad(decimal(y as nat), 4)
    }
}

/// How `%m`, `%d`, `%H`, `%M` and `%S` render a field: two digits,
/// zero-padded.
pub open spec fn two_digits(n: nat) -> Seq<char> {
    zero_pad(decimal(n), 2)
}

/// The text `%Y-%m-%dT%H:%M:%S` gives for a date and a time of day.
pub open spec fn stamp_text(y: int, mo: nat, d: nat, h: nat, mi: nat, s: nat) -> Seq<char> {
    year_text(y) + seq!['-'] + two_digits(mo) + seq!['-'] + two_digits(d) + seq!['T'] + two_digits(h)
        + seq![':'] + two_digits(mi) + seq![':'] + two_digits(s)
}

/// Whether `t` is a local time stamp: some date (month 1 to 12, day 1 to
/// 31) and time of day (hour 0 to 23, minute 0 to 59, second 0 to 60, the
/// last for a leap second) written as `YYYY-MM-DDTHH:MM:SS`.
pub open spec fn is_local_stamp(t: Seq<char>) -> bool {
    exists|y: int, mo: nat, d: nat, h: nat, mi: nat, s: nat|
        1 <= mo <= 12 && 1 <= d <= 31 && h <= 23 && mi <= 59 && s <= 60
            && t == #[trigger] stamp_text(y, mo, d, h, mi, s)
}

/// `chrono::Local::now()`, rendered through `DateTime::format` with the
/// pattern `%Y-%m-%dT%H:%M:%S`, the one pattern it is called with (an
/// unknown specifier would make the rendering fail and `to_string` panic).
/// Which moment it shows depends on when the call is made and on the
/// machine's time zone, so no particular text is stated; the contract
/// states the shape chrono writes: its `%Y` writes the year zero-padded to
/// four digits (with a sign outside 0 to 9999), the other fields two
/// zero-padded digits, and a date and time of day of chrono always have the
/// fields within the ranges of [`is_local_stamp`].
#[verifier::external_body]
pub(crate) fn local_time_text(pattern: &str) -> (r: String)
    requires
        pattern@ == "%Y-%m-%dT%H:%M:%S"@,
    ensures
        is_local_stamp(r@),
{
    chrono::Local::now().format(pattern).to_string()
}

/// The text `%Y%m%d_%H%M%S` gives for a date and a time of day.
pub open spec fn compact_stamp_text(y: int, mo: nat, d: nat, h: nat, mi: nat, s: nat) -> Seq<char> {
    year_text(y) + two_digits(mo) + two_digits(d) + seq!['_'] + two_digits(h) + two_digits(mi) + two_digits(s)
}

/// Whether `t` is a compact time stamp: some date (month 1 to 12, day 1 to
/// 31) and time of day (hour 0 to 23, minute 0 to 59, second 0 to 60)
/// written as `YYYYmmdd_HHMMSS`.
pub open spec fn is_compact_stamp(t: Seq<char>) -> bool {
    exists|y: int, mo: nat, d: nat, h: nat, mi: nat, s: nat|
        1 <= mo <= 12 && 1 <= d <= 31 && h <= 23 && mi <= 59 && s <= 60
            && t == #[trigger] compact_stamp_text(y, mo, d, h, mi, s)
}

/// `chrono::Utc::now()`, rendered through `DateTime::format` with the
/// pattern `%Y%m%d_%H%M%S`, the one pattern it is called with (an unknown
/// specifier would make the rendering fail and `to_string` panic). The
/// moment depends on when the call is made, so no particular text is
/// stated; the contract states the shape chrono writes for this pattern,
/// as for [`local_time_text`].
#[verifier::external_body]
pub(crate) fn utc_time_text(pattern: &str) -> (r: String)
    requires
        pattern@ == "%Y%m%d_%H%M%S"@,
    ensures
        is_compact_stamp(r@),
{
    chrono::Utc::now().format(pattern).to_string()
}

/// The fraction of a second RFC 3339 output carries for `nano`
/// nanoseconds: none for a whole second, else a point and three, six or
/// nine digits, the fewest that hold it exactly.
pub open spec fn fraction_text(nano: nat) -> Seq<char> {
    if nano == 0 {
        Seq::empty()
    } else if nano % 1_000_000 == 0 {
        seq!['.'] + zero_pad(decimal(nano / 1_000_000), 3)
    } else if nano % 1_000 == 0 {
        seq!['.'] + zero_pad(decimal(nano / 1_000), 6)
    } else {
        seq!['.'] + zero_pad(decimal(nano), 9)
    }
}

/// The RFC 3339 text of a UTC date and time of day with `nano`
/// nanoseconds: `YYYY-MM-DDTHH:MM:SS`, the fraction, and `+00:00`.
pub open spec fn rfc3339_utc_text(y: int, mo: nat, d: nat, h: nat, mi: nat, s: nat, nano: nat) -> Seq<char> {
    stamp_text(y, mo, d, h, mi, s) + fraction_text(nano) + "+00:00"@
}

/// Whether `t` is the RFC 3339 text of some UTC date (month 1 to 12, day 1
/// to 31) and time of day (hour 0 to 23, minute 0 to 59, second 0 to 60,
/// under a second of nanoseconds).
pub open spec fn is_utc_rfc3339(t: Seq<char>) -> bool {
    exists|y: int, mo: nat, d: nat, h: nat, mi: nat, s: nat, nano: nat|
        1 <= mo <= 12 && 1 <= d <= 31 && h <= 23 && mi <= 59 && s <= 60 && nano < 1_000_000_000
            && t == #[trigger] rfc3339_utc_text(y, mo, d, h, mi, s, nano)
}

/// `chrono::Utc::now()` in RFC 3339 form (`DateTime::to_rfc3339`, which
/// writes with `SecondsFormat::AutoSi` and the offset as `+00:00`). The
/// moment depends on when the call is made, so no particular text is
/// stated; the contract states the shape `write_rfc3339` gives it: the
/// year as `%Y` writes it, two-digit fields, the fraction of
/// [`fraction_text`] and the zero offset.
#[verifier::external_body]
pub(crate) fn utc_now_rfc3339() -> (r: String)
    ensures
        is_utc_rfc3339(r@),
{
    chrono::Utc::now().to_rfc3339()
}

/// The local time as `YYYY-MM-DDTHH:MM:SS`, the stamp of automatic commits.
pub fn local_timestamp() -> (r: String)
    ensures
        is_local_stamp(r@),
{
    local_time_text("%Y-%m-%dT%H:%M:%S")
}

} // verus!
