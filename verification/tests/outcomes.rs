use nimbus_groups::response::extract_id_field;
use nimbus_groups::response::location_group_outcome;
use nimbus_groups::response::schedule_group_outcome;

#[test]
fn success_response_yields_location_group_id() {
    let result = location_group_outcome(200, "{\"LocationGroupID\": 123}").unwrap();
    assert_eq!(result.location_group_id, 123);
}

#[test]
fn created_response_yields_schedule_group_id() {
    let result = schedule_group_outcome(201, "{\"ScheduleGroupID\": 77}").unwrap();
    assert_eq!(result.schedule_group_id, 77);
}

#[test]
fn error_status_reports_code_and_body() {
    let err = location_group_outcome(404, "not found").unwrap_err();
    assert!(err.contains("404"));
    assert!(err.contains("not found"));
    assert_eq!(err, "API error (404): not found");
}

#[test]
fn missing_identifier_field_is_reported_by_name() {
    let err = location_group_outcome(200, "{}").unwrap_err();
    assert_eq!(err, "LocationGroupID not found in response");
    let err = schedule_group_outcome(200, "{}").unwrap_err();
    assert_eq!(err, "ScheduleGroupID not found in response");
}

#[test]
fn non_integer_identifier_counts_as_missing() {
    let err = location_group_outcome(200, "{\"LocationGroupID\": \"abc\"}").unwrap_err();
    assert_eq!(err, "LocationGroupID not found in response");
}

#[test]
fn unparsable_body_reports_parse_failure() {
    let err = location_group_outcome(200, "Unknown error").unwrap_err();
    assert!(err.starts_with("Failed to parse response: "));
}

#[test]
fn success_range_bounds() {
    assert!(location_group_outcome(299, "{\"LocationGroupID\": 1}").is_ok());
    let err = location_group_outcome(300, "{\"LocationGroupID\": 1}").unwrap_err();
    assert!(err.contains("300"));
    let err = location_group_outcome(199, "{\"LocationGroupID\": 1}").unwrap_err();
    assert!(err.contains("199"));
}

#[test]
fn extract_reads_named_field_only() {
    assert_eq!(
        extract_id_field(200, "{\"A\": 1, \"B\": -9223372036854775808}", "B").unwrap(),
        i64::MIN
    );
    assert!(extract_id_field(200, "{\"A\": 1}", "B").is_err());
}
