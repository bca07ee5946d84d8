//! The timetable resource: the upstream rows, the week-window request,
//! and the outward shaping into a subject-keyed schedule.

use crate::date::{last_day_number, yyyymmdd_seq, Date, Weekday};
use crate::envelope::Response;
use crate::numeric::{decimal_digits, parsed_u32, u32_to_string};
use crate::subjects::{aggregate_spec, row_well_formed, Subjects};
use crate::{AppResponse, ShapeError};
use vstd::prelude::*;
use vstd::string::StringExecFns;

verus! {

/// One upstream timetable row, each field as the upstream sends it.
#[derive(Clone, PartialEq, Eq, Debug)]
pub struct TimeTableData {
    pub date: String,
    pub grade: String,
    pub classroom: String,
    pub class: Option<String>,
    pub perio: String,
    pub subject: String,
}

/// The upstream timetable request parameters.
pub struct TimeTableRawRequest {
    pub key: String,
    pub res_type: String,
    pub p_size: u32,
    pub region_code: String,
    pub school_code: String,
    pub year: String,
    pub grade: Option<String>,
    pub date_start: String,
    pub date_end: String,
}

impl TimeTableRawRequest {
    /// Builds the upstream request for the week of `date`: the window runs
    /// from that week's Monday to its Friday, the year is the reference
    /// date's calendar year, and the page size is fixed large enough for a
    /// full week. `None` only when the Friday would fall outside the
    /// representable date range.
    pub fn new(key: &str, region_code: &str, school_code: &str, grade: Option<u8>, date: &Date)
        -> (r: Option<Self>)
        requires
            date.valid(),
        ensures
            r is Some <==> date.week_monday_number() + 4 <= last_day_number(),
            r matches Some(q) ==> {
                &&& q.key@ == key@
                &&& q.res_type@ == "json"@
                &&& q.p_size == 1000
                &&& q.region_code@ == region_code@
                &&& q.school_code@ == school_code@
                &&& q.year@ == decimal_digits(date.year as int)
                &&& (q.grade is Some <==> grade is Some)
                &&& q.grade matches Some(g) ==> (grade matches Some(n) && g@ == decimal_digits(
                    n as int,
                ))
                &&& exists|ws: Date, we: Date|
                    #![trigger yyyymmdd_seq(ws), yyyymmdd_seq(we)]
                    {
                        &&& ws.valid()
                        &&& we.valid()
                        &&& ws.day_number_spec() == date.week_monday_number()
                        &&& we.day_number_spec() == date.week_monday_number() + 4
                        &&& ws.weekday_spec() == Weekday::Mon
                        &&& we.weekday_spec() == Weekday::Fri
                        &&& q.date_start@ == yyyymmdd_seq(ws)
                        &&& q.date_end@ == yyyymmdd_seq(we)
                    }
            },
    {
        match date.week_window() {
            Some(window) => {
                let (monday, friday) = window;
                let date_start = crate::date::format_yyyymmdd(&monday);
                let date_end = crate::date::format_yyyymmdd(&friday);
                let grade_field = match grade {
                    Some(g) => Some(u32_to_string(g as u32)),
                    None => None,
                };
                let q = TimeTableRawRequest {
                    key: key.to_owned(),
                    res_type: String::from_str("json"),
                    p_size: 1000,
                    region_code: region_code.to_owned(),
                    school_code: school_code.to_owned(),
                    year: u32_to_string(date.year),
                    grade: grade_field,
                    date_start,
                    date_end,
                };
                proof {
                    assert(q.date_start@ == yyyymmdd_seq(monday) && q.date_end@ == yyyymmdd_seq(
                        friday,
                    ));
                }
                Some(q)
            },
            None => None,
        }
    }
}

/// Shapes a normalized timetable result into the outward envelope: rows
/// are grouped into the subject-keyed schedule; a missing row element
/// surfaces the upstream status verbatim as the outward error. A row whose
/// date or period does not parse, or a status code that is not numeric, is
/// a shaping failure.
pub fn time_table_response(data: &Response<TimeTableData>) -> (r: Result<
    AppResponse<Subjects>,
    ShapeError,
>)
    ensures
        r is Ok <==> (match data.result {
            Some(rows) => forall|i: int| 0 <= i < rows@.len() ==> row_well_formed(#[trigger] rows@[i]),
            None => parsed_u32(data.status.code@) is Some,
        }),
        r matches Ok(resp) ==> {
            &&& resp.well_formed()
            &&& resp.result <==> data.result is Some
            &&& data.result matches Some(rows) ==> (resp.content matches Some(s) && s.model()
                == aggregate_spec(rows@))
            &&& data.result is None ==> (resp.error matches Some(e) && parsed_u32(
                data.status.code@,
            ) == Some(e.code) && e.message@ == data.status.message@)
        },
{
    match data.result() {
        Some(rows) => match Subjects::try_from_time_table(rows.as_slice()) {
            Some(s) => Ok(AppResponse::success(s)),
            None => Err(ShapeError::MalformedRow),
        },
        None => match data.status().try_to_app_response_error() {
            Some(e) => Ok(AppResponse::error(e)),
            None => Err(ShapeError::NonNumericStatusCode),
        },
    }
}

} // verus!
