//! The current date, read from the system clock. This is the library's
//! only tie to wall-clock time; everything computed from the date is
//! verified over every date the wrapper could return.

use crate::date::Date;
use chrono::Datelike;
use vstd::prelude::*;

verus! {

/// Relies on `chrono::Utc::now` and `NaiveDate`'s accessors: the triple is
/// today's UTC date, month and day 1-based and valid for that month in the
/// proleptic Gregorian calendar. The year depends on the clock and is not
/// constrained here.
#[verifier::external_body]
fn now_ymd() -> (r: (i64, u32, u32))
    ensures
        1 <= r.1 <= 12,
        1 <= r.2 <= 31,
{
    let d = chrono::Utc::now().date_naive();
    (d.year() as i64, d.month(), d.day())
}

/// Today's UTC date, or `None` when the clock falls outside the range the
/// `YYYYMMDD` wire format can carry.
pub fn current_date() -> (r: Option<Date>)
    ensures
        r matches Some(d) ==> d.valid(),
{
    let (y, m, d) = now_ymd();
    if 1 <= y && y <= 9999 {
        let candidate = Date { year: y as u32, month: m, day: d };
        let ml = crate::date::month_length(candidate.year, candidate.month);
        if candidate.day <= ml {
            proof {
                assert(candidate.valid());
            }
            Some(candidate)
        } else {
            None
        }
    } else {
        None
    }
}

} // verus!
