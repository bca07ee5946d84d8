//! The upstream API client: the caller's key together with the request
//! builders of the two resources. Sending the requests over HTTP lives
//! outside the library.

use crate::date::{last_day_number, Date};
use crate::meal::{meal_filter_code, MealRawRequest, MealType};
use crate::numeric::decimal_digits;
use crate::timetable::TimeTableRawRequest;
use vstd::prelude::*;

verus! {

/// The upstream API client configuration: the caller's API key.
pub struct NeisClient {
    pub key: String,
}

impl NeisClient {
    pub fn new(key: &str) -> (r: Self)
        ensures
            r.key@ == key@,
    {
        NeisClient { key: key.to_owned() }
    }

    /// The meal request this client issues for the given query, as
    /// [`MealRawRequest::new`] builds it.
    pub fn meal_request(
        &self,
        region_code: &str,
        school_code: &str,
        meal_type: &MealType,
        date: &str,
    ) -> (r: MealRawRequest)
        ensures
            r.key@ == self.key@,
            r.res_type@ == "json"@,
            r.region_code@ == region_code@,
            r.school_code@ == school_code@,
            r.date@ == date@,
            r.meal_type_code is Some <==> meal_filter_code(*meal_type) is Some,
            r.meal_type_code matches Some(c) ==> meal_filter_code(*meal_type) == Some(c@),
    {
        MealRawRequest::new(self.key.as_str(), region_code, school_code, meal_type, date)
    }

    /// The timetable request this client issues for the week of `date`,
    /// as [`TimeTableRawRequest::new`] builds it.
    pub fn time_table_request(
        &self,
        region_code: &str,
        school_code: &str,
        grade: Option<u8>,
        date: &Date,
    ) -> (r: Option<TimeTableRawRequest>)
        requires
            date.valid(),
        ensures
            r is Some <==> date.week_monday_number() + 4 <= last_day_number(),
            r matches Some(q) ==> {
                &&& q.key@ == self.key@
                &&& q.res_type@ == "json"@
                &&& q.p_size == 1000
                &&& q.region_code@ == region_code@
                &&& q.school_code@ == school_code@
                &&& q.year@ == decimal_digits(date.year as int)
                &&& (q.grade is Some <==> grade is Some)
                &&& q.grade matches Some(g) ==> (grade matches Some(n) && g@ == decimal_digits(
                    n as int,
                ))
                &&& exists|ws: Date, we: Date|
                    #![trigger crate::date::yyyymmdd_seq(ws), crate::date::yyyymmdd_seq(we)]
                    {
                        &&& ws.valid()
                        &&& we.valid()
                        &&& ws.day_number_spec() == date.week_monday_number()
                        &&& we.day_number_spec() == date.week_monday_number() + 4
                        &&& ws.weekday_spec() == crate::date::Weekday::Mon
                        &&& we.weekday_spec() == crate::date::Weekday::Fri
                        &&& q.date_start@ == crate::date::yyyymmdd_seq(ws)
                        &&& q.date_end@ == crate::date::yyyymmdd_seq(we)
                    }
            },
    {
        TimeTableRawRequest::new(self.key.as_str(), region_code, school_code, grade, date)
    }
}

} // verus!
