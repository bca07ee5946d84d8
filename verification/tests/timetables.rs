use neis_proxy::client::NeisClient;
use neis_proxy::date::parse_yyyymmdd;
use neis_proxy::envelope::{HeadElement, RawResponseContent, Response, StatusResult};
use neis_proxy::subjects::Subjects;
use neis_proxy::timetable::{time_table_response, TimeTableData, TimeTableRawRequest};
use neis_proxy::ShapeError;

fn row(subject: &str, classroom: &str, date: &str, perio: &str) -> TimeTableData {
    TimeTableData {
        date: date.to_string(),
        grade: "1".to_string(),
        classroom: classroom.to_string(),
        class: Some("3".to_string()),
        perio: perio.to_string(),
        subject: subject.to_string(),
    }
}

#[test]
fn grouping_by_subject_and_classroom() {
    let rows = vec![
        row("Math", "101", "20230306", "1"),
        row("Math", "101", "20230307", "1"),
    ];
    let subjects = Subjects::from_time_table(&rows);
    assert_eq!(subjects.0.len(), 1);
    let (key, entry) = &subjects.0[0];
    assert_eq!(key, "Math(101)");
    assert_eq!(entry.subject, "Math");
    assert_eq!(entry.classroom, "101");
    assert_eq!(
        entry.time,
        vec![("Mon".to_string(), 1u8), ("Tue".to_string(), 1u8)]
    );
}

#[test]
fn grouping_keeps_distinct_keys_apart() {
    let rows = vec![
        row("Math", "101", "20230306", "1"),
        row("Art", "101", "20230306", "2"),
        row("Math", "202", "20230306", "3"),
        row("Math", "101", "20230310", "4"),
    ];
    let subjects = Subjects::from_time_table(&rows);
    assert_eq!(subjects.0.len(), 3);
    assert_eq!(subjects.0[0].0, "Math(101)");
    assert_eq!(subjects.0[1].0, "Art(101)");
    assert_eq!(subjects.0[2].0, "Math(202)");
    assert_eq!(
        subjects.0[0].1.time,
        vec![("Mon".to_string(), 1u8), ("Fri".to_string(), 4u8)]
    );
}

#[test]
fn grouping_keeps_duplicate_slots() {
    let rows = vec![
        row("Math", "101", "20230306", "1"),
        row("Math", "101", "20230306", "1"),
    ];
    let subjects = Subjects::from_time_table(&rows);
    assert_eq!(subjects.0.len(), 1);
    assert_eq!(
        subjects.0[0].1.time,
        vec![("Mon".to_string(), 1u8), ("Mon".to_string(), 1u8)]
    );
}

#[test]
fn aggregation_is_idempotent() {
    let rows = vec![
        row("Math", "101", "20230306", "1"),
        row("Art", "202", "20230307", "2"),
        row("Math", "101", "20230308", "3"),
    ];
    let first = Subjects::from_time_table(&rows);
    let second = Subjects::from_time_table(&rows);
    assert_eq!(first, second);
}

#[test]
fn aggregation_rejects_malformed_rows() {
    let bad_period = vec![row("Math", "101", "20230306", "first")];
    assert!(Subjects::try_from_time_table(&bad_period).is_none());

    let bad_date = vec![row("Math", "101", "2023030X", "1")];
    assert!(Subjects::try_from_time_table(&bad_date).is_none());

    let good = vec![row("Math", "101", "20230306", "1")];
    assert!(Subjects::try_from_time_table(&good).is_some());
}

#[test]
fn timetable_request_week_window() {
    let wednesday = parse_yyyymmdd("20230308").unwrap();
    let req =
        TimeTableRawRequest::new("KEY", "B10", "7001", Some(1), &wednesday).unwrap();
    assert_eq!(req.key, "KEY");
    assert_eq!(req.res_type, "json");
    assert_eq!(req.p_size, 1000);
    assert_eq!(req.region_code, "B10");
    assert_eq!(req.school_code, "7001");
    assert_eq!(req.year, "2023");
    assert_eq!(req.grade, Some("1".to_string()));
    assert_eq!(req.date_start, "20230306");
    assert_eq!(req.date_end, "20230310");
}

#[test]
fn timetable_request_without_grade() {
    let monday = parse_yyyymmdd("20230306").unwrap();
    let req = TimeTableRawRequest::new("KEY", "B10", "7001", None, &monday).unwrap();
    assert_eq!(req.grade, None);
    assert_eq!(req.date_start, "20230306");
    assert_eq!(req.date_end, "20230310");
}

#[test]
fn timetable_rows_shape_into_schedule() {
    let raw: Vec<RawResponseContent<TimeTableData>> = vec![
        RawResponseContent::Head(vec![
            HeadElement::Count(2),
            HeadElement::Status(StatusResult {
                code: "0".to_string(),
                message: "ok".to_string(),
            }),
        ]),
        RawResponseContent::Row(vec![
            row("Math", "101", "20230306", "1"),
            row("Math", "101", "20230307", "1"),
        ]),
    ];
    let resp = Response::from_raw(raw).unwrap();
    let outward = time_table_response(&resp).unwrap();
    assert!(outward.result);
    let schedule = outward.content.unwrap();
    assert_eq!(schedule.0.len(), 1);
    assert_eq!(schedule.0[0].0, "Math(101)");
}

#[test]
fn timetable_status_only_becomes_outward_error() {
    let resp: Response<TimeTableData> = Response::from_status(StatusResult {
        code: "336".to_string(),
        message: "no timetable".to_string(),
    });
    let outward = time_table_response(&resp).unwrap();
    assert!(!outward.result);
    let err = outward.error.unwrap();
    assert_eq!(err.code, 336);
    assert_eq!(err.message, "no timetable");
}

#[test]
fn timetable_malformed_row_is_a_shaping_failure() {
    let resp = Response {
        status: StatusResult { code: "0".to_string(), message: "ok".to_string() },
        result: Some(vec![row("Math", "101", "20230306", "one")]),
    };
    assert_eq!(time_table_response(&resp).unwrap_err(), ShapeError::MalformedRow);
}

#[test]
fn client_builds_requests_with_its_key() {
    let client = NeisClient::new("KEY");
    let meal_req = client.meal_request("B10", "7001", &neis_proxy::meal::MealType::Dinner, "20230306");
    assert_eq!(meal_req.key, "KEY");
    assert_eq!(meal_req.meal_type_code, Some("3".to_string()));

    let date = parse_yyyymmdd("20230308").unwrap();
    let tt_req = client.time_table_request("B10", "7001", Some(2), &date).unwrap();
    assert_eq!(tt_req.key, "KEY");
    assert_eq!(tt_req.grade, Some("2".to_string()));
    assert_eq!(tt_req.date_start, "20230306");
}

#[test]
fn current_date_is_a_valid_date() {
    let today = neis_proxy::clock::current_date().expect("the clock is in range");
    assert!((1..=12).contains(&today.month));
    assert!((1..=31).contains(&today.day));
    assert!((1..=9999).contains(&today.year));
    // A round trip through the wire format keeps the value.
    let formatted = neis_proxy::date::format_yyyymmdd(&today);
    assert_eq!(parse_yyyymmdd(&formatted), Some(today));
}
