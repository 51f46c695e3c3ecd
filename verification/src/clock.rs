//! Calendar and clock access, through the `chrono` crate. Instants are
//! seconds relative to the Unix epoch, on the naive (zone-less) scale the
//! rest of the library uses.

use vstd::prelude::*;

verus! {

/// The instants the calendar library represents: from the first to the last
/// second of its supported years.
pub open spec fn calendar_range(ts: int) -> bool {
    -8_334_601_228_800 <= ts <= 8_210_266_876_799
}

/// What parsing a date-time text yields: the denoted instant in seconds, or
/// nothing where the text is not a well-formed date-time.
pub uninterp spec fn datetime_parse(s: Seq<char>) -> Option<int>;

/// What an instant displays as in calendar form.
pub uninterp spec fn datetime_display(ts: int) -> Seq<char>;

/// Relies on chrono's `NaiveDateTime` parsing (`FromStr`) and on
/// `and_utc().timestamp()`: the result is a function of the text alone, and
/// every instant the parser can produce lies within the calendar range.
#[verifier::external_body]
pub(crate) fn parse_datetime(s: &str) -> (r: Option<i64>)
    ensures
        r is Some <==> datetime_parse(s@) is Some,
        r is Some ==> r->0 as int == datetime_parse(s@)->0 && calendar_range(r->0 as int),
{
    match s.parse::<chrono::NaiveDateTime>() {
        Ok(dt) => Some(dt.and_utc().timestamp()),
        Err(_) => None,
    }
}

/// Relies on chrono's `DateTime::from_timestamp`, defined on the whole
/// calendar range, and on its fixed-format display `%Y-%m-%d %H:%M:%S`: the
/// text is a function of the instant alone.
#[verifier::external_body]
pub(crate) fn format_datetime(ts: i64) -> (r: String)
    requires
        calendar_range(ts as int),
    ensures
        r@ == datetime_display(ts as int),
{
    let dt = chrono::DateTime::from_timestamp(ts, 0).unwrap().naive_utc();
    dt.format("%Y-%m-%d %H:%M:%S").to_string()
}

} // verus!
