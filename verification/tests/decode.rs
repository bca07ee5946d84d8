use neis_proxy::envelope::{
    DecodeError, HeadElement, RawResponseContent, Response, StatusResult,
};
use neis_proxy::meal::MealData;

fn status(code: &str, message: &str) -> StatusResult {
    StatusResult { code: code.to_string(), message: message.to_string() }
}

fn meal_row(code: &str, date: &str, dishes: &str) -> MealData {
    MealData {
        meal_type_code: code.to_string(),
        date: date.to_string(),
        dish_names: dishes.to_string(),
    }
}

#[test]
fn decode_envelope_with_rows() {
    let rows = vec![
        meal_row("2", "20230306", "Rice<br/>Soup"),
        meal_row("3", "20230306", "Noodles"),
    ];
    let raw = vec![
        RawResponseContent::Head(vec![
            HeadElement::Count(2),
            HeadElement::Status(status("INFO-000", "ok")),
        ]),
        RawResponseContent::Row(rows.clone()),
    ];
    let resp = Response::from_raw(raw).unwrap();
    assert_eq!(resp.status, status("INFO-000", "ok"));
    let decoded = resp.result.expect("rows must be present");
    assert_eq!(decoded.len(), 2);
    assert_eq!(decoded, rows);
}

#[test]
fn decode_envelope_with_empty_rows() {
    let raw: Vec<RawResponseContent<MealData>> = vec![
        RawResponseContent::Head(vec![
            HeadElement::Count(0),
            HeadElement::Status(status("INFO-000", "ok")),
        ]),
        RawResponseContent::Row(vec![]),
    ];
    let resp = Response::from_raw(raw).unwrap();
    let decoded = resp.result.expect("an empty row list is still present");
    assert!(decoded.is_empty());
}

#[test]
fn decode_rejects_wrong_element_count() {
    let one: Vec<RawResponseContent<MealData>> = vec![RawResponseContent::Head(vec![
        HeadElement::Count(0),
        HeadElement::Status(status("INFO-000", "ok")),
    ])];
    assert_eq!(Response::from_raw(one).unwrap_err(), DecodeError::MalformedEnvelope);

    let three: Vec<RawResponseContent<MealData>> = vec![
        RawResponseContent::Head(vec![
            HeadElement::Count(0),
            HeadElement::Status(status("INFO-000", "ok")),
        ]),
        RawResponseContent::Row(vec![]),
        RawResponseContent::Row(vec![]),
    ];
    assert_eq!(Response::from_raw(three).unwrap_err(), DecodeError::MalformedEnvelope);

    let none: Vec<RawResponseContent<MealData>> = vec![];
    assert_eq!(Response::from_raw(none).unwrap_err(), DecodeError::MalformedEnvelope);
}

#[test]
fn decode_rejects_missing_status() {
    let short_head: Vec<RawResponseContent<MealData>> = vec![
        RawResponseContent::Head(vec![HeadElement::Count(0)]),
        RawResponseContent::Row(vec![]),
    ];
    assert_eq!(Response::from_raw(short_head).unwrap_err(), DecodeError::MalformedEnvelope);

    let no_status: Vec<RawResponseContent<MealData>> = vec![
        RawResponseContent::Head(vec![HeadElement::Count(0), HeadElement::Count(0)]),
        RawResponseContent::Row(vec![]),
    ];
    assert_eq!(Response::from_raw(no_status).unwrap_err(), DecodeError::MalformedEnvelope);
}

#[test]
fn decode_rejects_wrong_variant_order() {
    let swapped: Vec<RawResponseContent<MealData>> = vec![
        RawResponseContent::Row(vec![]),
        RawResponseContent::Head(vec![
            HeadElement::Count(0),
            HeadElement::Status(status("INFO-000", "ok")),
        ]),
    ];
    assert_eq!(Response::from_raw(swapped).unwrap_err(), DecodeError::MalformedEnvelope);
}

#[test]
fn status_only_body_has_no_rows() {
    let resp: Response<MealData> = Response::from_status(status("INFO-200", "no data"));
    assert!(resp.result.is_none());
    assert_eq!(resp.status().code, "INFO-200");
    assert_eq!(resp.status().message, "no data");
}

#[test]
fn status_code_conversion() {
    let numeric = status("200", "no data");
    let err = numeric.to_app_response_error();
    assert_eq!(err.code, 200);
    assert_eq!(err.message, "no data");

    let padded = status("0042", "padded");
    assert_eq!(padded.try_to_app_response_error().unwrap().code, 42);

    let non_numeric = status("INFO-200", "no data");
    assert!(non_numeric.try_to_app_response_error().is_none());
}
