//! Dates.
use chrono::TimeZone;
use vstd::prelude::*;

verus! {

/// How a date is written: day, month and year.
pub const DATE_LAYOUT: &'static str = "%d/%m/%Y";

/// The date in UTC at a number of seconds since the epoch, in the given layout; none
/// where the calendar does not reach.
pub uninterp spec fn utc_date_text(secs: i64, layout: Seq<char>) -> Option<Seq<char>>;

/// `TimeZone::timestamp_opt` for `Utc` and `DateTime::format`: the text, and whether
/// there is one, depends on the number of seconds and the layout alone, and the epoch
/// has one. A layout with anything but known specifiers would panic.
#[verifier::external_body]
fn format_utc(secs: i64, layout: &str) -> (r: Option<String>)
    requires
        layout@ == DATE_LAYOUT@,
    ensures
        r.deep_view() == utc_date_text(secs, layout@),
        secs == 0 ==> r is Some && r->0@ == "01/01/1970"@,
{
    match chrono::Utc.timestamp_opt(secs, 0).single() {
        Some(moment) => Some(moment.format(layout).to_string()),
        None => None,
    }
}

/// The date at a moment; the epoch's date where the calendar does not reach.
pub open spec fn date_of_text(text: Option<Seq<char>>) -> Seq<char> {
    match text {
        Some(t) => t,
        None => "01/01/1970"@,
    }
}

/// The date at a number of seconds since the epoch; the epoch's date where the calendar
/// does not reach. A number beyond `i64` is taken by its lower 64 bits.
pub open spec fn date_text(secs: u64) -> Seq<char> {
    date_of_text(utc_date_text(secs as i64, DATE_LAYOUT@))
}

/// The date, or the one to fall back on.
pub fn date_or(date: Option<String>, fallback: String) -> (r: String)
    ensures
        r@ == (match date {
            Some(t) => t@,
            None => fallback@,
        }),
{
    match date {
        Some(t) => t,
        None => fallback,
    }
}

/// The date at a number of seconds since the epoch.
pub fn date(secs: u64) -> (r: String)
    ensures
        r@ == date_text(secs),
{
    date_or(format_utc(secs as i64, DATE_LAYOUT), format_utc(0, DATE_LAYOUT).unwrap())
}

/// The date is the one at that moment, where the calendar reaches, else that of the epoch.
pub proof fn dates_fall_back_on_the_epoch(secs: u64, text: Seq<char>)
    ensures
        utc_date_text(secs as i64, "%d/%m/%Y"@) == Some(text) ==> date_text(secs) == text,
        utc_date_text(secs as i64, "%d/%m/%Y"@) is None ==> date_text(secs) == "01/01/1970"@,
{
}

} // verus!
