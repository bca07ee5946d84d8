use neis_proxy::envelope::{HeadElement, RawResponseContent, Response, StatusResult};
use neis_proxy::meal::{Meal, MealData, MealRawRequest, MealRawResponse, MealType, meal_response};
use neis_proxy::{AppResponse, ShapeError};

fn meal_row(code: &str, date: &str, dishes: &str) -> MealData {
    MealData {
        meal_type_code: code.to_string(),
        date: date.to_string(),
        dish_names: dishes.to_string(),
    }
}

#[test]
fn meal_type_filter_codes() {
    assert_eq!(MealType::Lunch.to_code(), Some("2".to_string()));
    assert_eq!(MealType::Dinner.to_code(), Some("3".to_string()));
    assert_eq!(MealType::All.to_code(), None);
    assert_eq!(MealType::Unspecified.to_code(), None);
}

#[test]
fn meal_type_from_raw_code() {
    assert_eq!(MealType::from_string("2"), MealType::Lunch);
    assert_eq!(MealType::from_string("3"), MealType::Dinner);
    assert_eq!(MealType::from_string("1"), MealType::Unspecified);
    assert_eq!(MealType::from_string(""), MealType::Unspecified);
}

#[test]
fn dish_name_splitting() {
    let record = meal_row("2", "20230306", "Rice<br/>Soup");
    assert_eq!(record.dish_names(), vec!["Rice".to_string(), "Soup".to_string()]);

    let single = meal_row("2", "20230306", "Rice");
    assert_eq!(single.dish_names(), vec!["Rice".to_string()]);

    let empty = meal_row("2", "20230306", "");
    assert_eq!(empty.dish_names(), vec!["".to_string()]);

    let trailing = meal_row("2", "20230306", "Rice<br/>");
    assert_eq!(trailing.dish_names(), vec!["Rice".to_string(), "".to_string()]);

    let only_sep = meal_row("2", "20230306", "<br/>");
    assert_eq!(only_sep.dish_names(), vec!["".to_string(), "".to_string()]);

    let three = meal_row("2", "20230306", "A<br/>B<br/>C");
    assert_eq!(three.dish_names(), vec!["A".to_string(), "B".to_string(), "C".to_string()]);
}

#[test]
fn meals_from_meal_data() {
    let rows = vec![
        meal_row("2", "20230306", "Rice<br/>Soup"),
        meal_row("9", "20230307", "Bread"),
    ];
    let meals = Meal::from_meal_data(&rows);
    assert_eq!(meals.len(), 2);
    assert_eq!(meals[0].meal_type, MealType::Lunch);
    assert_eq!(meals[0].date, "20230306");
    assert_eq!(meals[0].dish_names, vec!["Rice".to_string(), "Soup".to_string()]);
    assert_eq!(meals[1].meal_type, MealType::Unspecified);
    assert_eq!(meals[1].dish_names, vec!["Bread".to_string()]);
}

#[test]
fn meal_request_parameters() {
    let req = MealRawRequest::new("KEY", "B10", "7001", &MealType::Lunch, "20230306");
    assert_eq!(req.key, "KEY");
    assert_eq!(req.res_type, "json");
    assert_eq!(req.region_code, "B10");
    assert_eq!(req.school_code, "7001");
    assert_eq!(req.meal_type_code, Some("2".to_string()));
    assert_eq!(req.date, "20230306");

    let all = MealRawRequest::new("KEY", "B10", "7001", &MealType::All, "20230306");
    assert_eq!(all.meal_type_code, None);
    let unspecified = MealRawRequest::new("KEY", "B10", "7001", &MealType::Unspecified, "20230306");
    assert_eq!(unspecified.meal_type_code, None);
}

#[test]
fn lunch_round_trip_to_outward_content() {
    let raw = MealRawResponse {
        meal: vec![
            RawResponseContent::Head(vec![
                HeadElement::Count(1),
                HeadElement::Status(StatusResult {
                    code: "0".to_string(),
                    message: "ok".to_string(),
                }),
            ]),
            RawResponseContent::Row(vec![meal_row("2", "20230306", "Rice<br/>Soup")]),
        ],
    };
    let resp = raw.to_response().unwrap();
    let outward = meal_response(&resp).unwrap();
    assert!(outward.result);
    assert!(outward.error.is_none());
    let content = outward.content.unwrap();
    assert_eq!(content.len(), 1);
    assert_eq!(content[0].meal_type, MealType::Lunch);
    assert_eq!(content[0].date, "20230306");
    assert_eq!(content[0].dish_names, vec!["Rice".to_string(), "Soup".to_string()]);
}

#[test]
fn status_only_result_becomes_outward_error() {
    let resp: Response<MealData> = Response::from_status(StatusResult {
        code: "200".to_string(),
        message: "no data".to_string(),
    });
    let outward = meal_response(&resp).unwrap();
    assert!(!outward.result);
    assert!(outward.content.is_none());
    let err = outward.error.unwrap();
    assert_eq!(err.code, 200);
    assert_eq!(err.message, "no data");
}

#[test]
fn non_numeric_status_code_is_a_shaping_failure() {
    let resp: Response<MealData> = Response::from_status(StatusResult {
        code: "INFO-200".to_string(),
        message: "no data".to_string(),
    });
    assert_eq!(meal_response(&resp).unwrap_err(), ShapeError::NonNumericStatusCode);
}

#[test]
fn generic_error_envelope() {
    let outward: AppResponse<Vec<Meal>> = AppResponse::error_with_message("connection refused");
    assert!(!outward.result);
    assert!(outward.content.is_none());
    let err = outward.error.unwrap();
    assert_eq!(err.code, 1500);
    assert_eq!(err.message, "Something went wrong: connection refused");
}
