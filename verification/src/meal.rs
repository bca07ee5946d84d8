//! Meal records: the upstream meal request, the decoded meal rows, and
//! their outward shaping.

use crate::envelope::{
    envelope_rows, envelope_status, envelope_well_formed, DecodeError, RawResponseContent,
    Response,
};
use crate::numeric::parsed_u32;
use crate::split::{split_spec, split_str, str_equal};
use crate::{AppResponse, ShapeError};
use vstd::prelude::*;
use vstd::string::StringExecFns;

verus! {

/// The caller-facing meal filter. `All` and `Unspecified` both leave the upstream
/// filter out, so the upstream returns every meal type of the date.
#[derive(Clone, Copy, PartialEq, Eq, Structural, Debug)]
pub enum MealType {
    Lunch,
    Dinner,
    All,
    Unspecified,
}

/// The upstream filter code a meal type maps to: Lunch and Dinner select
/// one meal type, the rest send no filter.
pub open spec fn meal_filter_code(t: MealType) -> Option<Seq<char>> {
    match t {
        MealType::Lunch => Some("2"@),
        MealType::Dinner => Some("3"@),
        _ => None,
    }
}

/// The meal type a raw upstream code denotes; codes other than the lunch
/// and dinner codes fall back to `Unspecified`.
pub open spec fn meal_type_of_code(code: Seq<char>) -> MealType {
    if code == "2"@ {
        MealType::Lunch
    } else if code == "3"@ {
        MealType::Dinner
    } else {
        MealType::Unspecified
    }
}

impl MealType {
    /// The upstream filter code, exactly as [`meal_filter_code`] describes.
    pub fn to_code(&self) -> (r: Option<String>)
        ensures
            r is Some <==> meal_filter_code(*self) is Some,
            r matches Some(c) ==> meal_filter_code(*self) == Some(c@),
    {
        match self {
            MealType::All | MealType::Unspecified => None,
            MealType::Lunch => Some(String::from_str("2")),
            MealType::Dinner => Some(String::from_str("3")),
        }
    }

    /// The meal type a raw upstream code denotes, exactly as
    /// [`meal_type_of_code`] describes.
    pub fn from_string(s: &str) -> (r: MealType)
        ensures
            r == meal_type_of_code(s@),
    {
        if str_equal(s, "2") {
            MealType::Lunch
        } else if str_equal(s, "3") {
            MealType::Dinner
        } else {
            MealType::Unspecified
        }
    }
}

/// One upstream meal record: the raw meal-type code, the date, and the
/// delimiter-joined dish list.
#[derive(Clone, PartialEq, Eq, Debug)]
pub struct MealData {
    pub meal_type_code: String,
    pub date: String,
    pub dish_names: String,
}

impl MealData {
    /// The meal type of this record's raw code.
    pub fn meal_type(&self) -> (r: MealType)
        ensures
            r == meal_type_of_code(self.meal_type_code@),
    {
        MealType::from_string(self.meal_type_code.as_str())
    }

    /// The record's date string.
    pub fn date(&self) -> (r: &str)
        ensures
            r@ == self.date@,
    {
        self.date.as_str()
    }

    /// The dishes of this record, split on the literal `<br/>` separator.
    pub fn dish_names(&self) -> (r: Vec<String>)
        ensures
            r@.map_values(|x: String| x@) == split_spec(self.dish_names@, "<br/>"@),
    {
        proof {
            reveal_strlit("<br/>");
        }
        split_str(self.dish_names.as_str(), "<br/>")
    }
}

/// The upstream meal request parameters.
pub struct MealRawRequest {
    pub key: String,
    pub res_type: String,
    pub region_code: String,
    pub school_code: String,
    pub meal_type_code: Option<String>,
    pub date: String,
}

impl MealRawRequest {
    /// Builds the upstream request: the caller's key, the fixed JSON
    /// response format, the school coordinates, the date, and the meal
    /// filter code when the meal type selects one.
    pub fn new(key: &str, region_code: &str, school_code: &str, meal_type: &MealType, date: &str)
        -> (r: Self)
        ensures
            r.key@ == key@,
            r.res_type@ == "json"@,
            r.region_code@ == region_code@,
            r.school_code@ == school_code@,
            r.date@ == date@,
            r.meal_type_code is Some <==> meal_filter_code(*meal_type) is Some,
            r.meal_type_code matches Some(c) ==> meal_filter_code(*meal_type) == Some(c@),
    {
        MealRawRequest {
            key: key.to_owned(),
            res_type: String::from_str("json"),
            region_code: region_code.to_owned(),
            school_code: school_code.to_owned(),
            meal_type_code: meal_type.to_code(),
            date: date.to_owned(),
        }
    }
}

/// The decoded body of the meal endpoint: the envelope elements found
/// under the endpoint's top-level key.
pub struct MealRawResponse {
    pub meal: Vec<RawResponseContent<MealData>>,
}

impl MealRawResponse {
    /// Normalizes the envelope, as [`Response::from_raw`] describes.
    pub fn to_response(self) -> (r: Result<Response<MealData>, DecodeError>)
        ensures
            r is Ok <==> envelope_well_formed(self.meal@),
            r matches Ok(resp) ==> {
                &&& Some(resp.status) == envelope_status(self.meal@)
                &&& resp.result matches Some(rows) && rows@ == envelope_rows(self.meal@)
            },
            r matches Err(e) ==> e == DecodeError::MalformedEnvelope,
    {
        Response::from_raw(self.meal)
    }
}

/// One outward meal entry: the decoded meal type, the date, and the dish
/// names as a list.
#[derive(Clone, PartialEq, Eq, Debug)]
pub struct Meal {
    pub meal_type: MealType,
    pub date: String,
    pub dish_names: Vec<String>,
}

/// Whether the outward entry `m` is the faithful view of the upstream
/// record `d`.
pub open spec fn meal_matches_data(m: Meal, d: MealData) -> bool {
    &&& m.meal_type == meal_type_of_code(d.meal_type_code@)
    &&& m.date@ == d.date@
    &&& m.dish_names@.map_values(|x: String| x@) == split_spec(d.dish_names@, "<br/>"@)
}

impl Meal {
    /// The outward view of each upstream record, in order.
    pub fn from_meal_data(meal: &[MealData]) -> (r: Vec<Meal>)
        ensures
            r@.len() == meal@.len(),
            forall|i: int| 0 <= i < meal@.len() ==> meal_matches_data(#[trigger] r@[i], meal@[i]),
    {
        let mut out: Vec<Meal> = Vec::new();
        let mut i: usize = 0;
        while i < meal.len()
            invariant
                i <= meal@.len(),
                out@.len() == i,
                forall|j: int| 0 <= j < i ==> meal_matches_data(#[trigger] out@[j], meal@[j]),
            decreases meal@.len() - i,
        {
            let md = &meal[i];
            out.push(
                Meal {
                    meal_type: md.meal_type(),
                    date: md.date.clone(),
                    dish_names: md.dish_names(),
                },
            );
            i = i + 1;
        }
        out
    }
}

/// Shapes a normalized meal result into the outward envelope: rows become
/// the outward meal list; a missing row element surfaces the upstream
/// status verbatim as the outward error, unless its code is not numeric,
/// which is a shaping failure.
pub fn meal_response(data: &Response<MealData>) -> (r: Result<
    AppResponse<Vec<Meal>>,
    ShapeError,
>)
    ensures
        r is Ok <==> (data.result is Some || parsed_u32(data.status.code@) is Some),
        r matches Ok(resp) ==> {
            &&& resp.well_formed()
            &&& resp.result <==> data.result is Some
            &&& data.result matches Some(rows) ==> (resp.content matches Some(meals)
                && meals@.len() == rows@.len() && (forall|i: int|
                0 <= i < rows@.len() ==> meal_matches_data(#[trigger] meals@[i], rows@[i])))
            &&& data.result is None ==> (resp.error matches Some(e) && parsed_u32(
                data.status.code@,
            ) == Some(e.code) && e.message@ == data.status.message@)
        },
{
    match data.result() {
        Some(rows) => Ok(AppResponse::success(Meal::from_meal_data(rows.as_slice()))),
        None => match data.status().try_to_app_response_error() {
            Some(e) => Ok(AppResponse::error(e)),
            None => Err(ShapeError::NonNumericStatusCode),
        },
    }
}

} // verus!
