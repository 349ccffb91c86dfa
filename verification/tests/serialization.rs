use nimbus_groups::headers::build_auth_headers;
use nimbus_groups::payload::location_group_payload;
use nimbus_groups::payload::location_group_request_json;
use nimbus_groups::payload::location_group_url;
use nimbus_groups::payload::schedule_group_payload;
use nimbus_groups::payload::schedule_group_request_json;
use nimbus_groups::payload::schedule_group_url;
use nimbus_groups::LocationGroupRequest;
use nimbus_groups::ScheduleGroupRequest;

#[test]
fn test_location_group_request_serialization() {
    let request = LocationGroupRequest {
        description: "Test Group".to_string(),
        location_ids: vec![1, 2, 3],
    };
    let json: serde_json::Value = serde_json::from_str(&location_group_request_json(&request)).unwrap();
    assert_eq!(json["description"], "Test Group");
    assert_eq!(json["location_ids"].as_array().unwrap().len(), 3);
}

#[test]
fn test_schedule_group_request_serialization() {
    let request = ScheduleGroupRequest {
        description: "Test Schedule".to_string(),
        location_group_id: 42,
        start_date: "2025-01-01".to_string(),
        end_date: "2025-12-31".to_string(),
        learning_period: "30".to_string(),
    };
    let json: serde_json::Value = serde_json::from_str(&schedule_group_request_json(&request)).unwrap();
    assert_eq!(json["description"], "Test Schedule");
    assert_eq!(json["location_group_id"], 42);
}

#[test]
fn location_group_request_round_trips_through_json() {
    let request = LocationGroupRequest {
        description: "quote \" backslash \\ newline \n tab \t control \u{1} accent é".to_string(),
        location_ids: vec![i64::MIN, -1, 0, 7, i64::MAX],
    };
    let json: serde_json::Value = serde_json::from_str(&location_group_request_json(&request)).unwrap();
    assert_eq!(json["description"].as_str().unwrap(), request.description);
    let ids: Vec<i64> = json["location_ids"]
        .as_array()
        .unwrap()
        .iter()
        .map(|v| v.as_i64().unwrap())
        .collect();
    assert_eq!(ids, request.location_ids);
}

#[test]
fn schedule_group_request_round_trips_through_json() {
    let request = ScheduleGroupRequest {
        description: "cohort \"A\" \\ line\nbreak".to_string(),
        location_group_id: i64::MIN,
        start_date: "2025-01-01".to_string(),
        end_date: "2025-12-31".to_string(),
        learning_period: "P\u{3} control".to_string(),
    };
    let json: serde_json::Value = serde_json::from_str(&schedule_group_request_json(&request)).unwrap();
    assert_eq!(json["description"].as_str().unwrap(), request.description);
    assert_eq!(json["location_group_id"].as_i64().unwrap(), request.location_group_id);
    assert_eq!(json["start_date"].as_str().unwrap(), request.start_date);
    assert_eq!(json["end_date"].as_str().unwrap(), request.end_date);
    assert_eq!(json["learning_period"].as_str().unwrap(), request.learning_period);
}

#[test]
fn locations_array_has_one_object_per_id_in_order() {
    let request = LocationGroupRequest {
        description: "Sites".to_string(),
        location_ids: vec![5, 6, 7],
    };
    let json: serde_json::Value = serde_json::from_str(&location_group_payload(&request)).unwrap();
    assert_eq!(json["Description"], "Sites");
    assert_eq!(json["Active"], true);
    let locations = json["Locations"].as_array().unwrap();
    assert_eq!(locations.len(), 3);
    assert_eq!(locations[0]["LocationID"], 5);
    assert_eq!(locations[1]["LocationID"], 6);
    assert_eq!(locations[2]["LocationID"], 7);
}

#[test]
fn empty_locations_array_serializes() {
    let request = LocationGroupRequest {
        description: "Empty".to_string(),
        location_ids: vec![],
    };
    let json: serde_json::Value = serde_json::from_str(&location_group_payload(&request)).unwrap();
    assert_eq!(json["Locations"].as_array().unwrap().len(), 0);
}

#[test]
fn schedule_group_payload_exact_text() {
    let request = ScheduleGroupRequest {
        description: "Fall Cohort".to_string(),
        location_group_id: 42,
        start_date: "2025-01-01".to_string(),
        end_date: "2025-12-31".to_string(),
        learning_period: "30".to_string(),
    };
    let expected = "{\"Description\":\"Fall Cohort\",\"Active\":true,\"LocationGroupID\":42,\"GroupStartDate\":\"2025-01-01\",\"GroupEndDate\":\"2025-12-31\",\"AdhocFields\":[{\"FieldName\":\"adhoc_LearningPeriod\",\"Value\":\"30\"}]}";
    assert_eq!(schedule_group_payload(&request), expected);
}

#[test]
fn adhoc_fields_always_single_fixed_entry() {
    let request = ScheduleGroupRequest {
        description: "Any".to_string(),
        location_group_id: -3,
        start_date: "2024-02-29".to_string(),
        end_date: "not a date".to_string(),
        learning_period: "weird \"value\" \\ here".to_string(),
    };
    let json: serde_json::Value = serde_json::from_str(&schedule_group_payload(&request)).unwrap();
    let adhoc = json["AdhocFields"].as_array().unwrap();
    assert_eq!(adhoc.len(), 1);
    assert_eq!(adhoc[0]["FieldName"], "adhoc_LearningPeriod");
    assert_eq!(adhoc[0]["Value"].as_str().unwrap(), request.learning_period);
}

#[test]
fn auth_headers_hold_token_and_bearer_form() {
    let headers = build_auth_headers("tok-12345").unwrap();
    assert_eq!(headers.len(), 4);
    assert_eq!(headers[0].0, "AuthenticationToken");
    assert_eq!(headers[0].1, "tok-12345");
    assert_eq!(headers[1].0, "Authorization");
    assert_eq!(headers[1].1, "Bearer tok-12345");
    assert_eq!(headers[2].0, "Accept");
    assert_eq!(headers[2].1, "application/json");
    assert_eq!(headers[3].0, "Content-Type");
    assert_eq!(headers[3].1, "application/json");
}

#[test]
fn invalid_token_fails_before_any_request() {
    let err = build_auth_headers("line\nbreak").unwrap_err();
    assert_eq!(err, "Invalid token header: failed to parse header value");
    // the same token is refused by the HTTP client's own header type
    assert!(reqwest::header::HeaderValue::from_str("line\nbreak").is_err());
    assert!(reqwest::header::HeaderValue::from_str("tok-12345").is_ok());
}

#[test]
fn tab_is_a_valid_header_byte_but_del_is_not() {
    assert!(build_auth_headers("a\tb").is_ok());
    assert!(build_auth_headers("a\u{7f}b").is_err());
    assert!(build_auth_headers("caf\u{e9}").is_ok());
}

#[test]
fn endpoint_urls_join_base_and_path() {
    assert_eq!(
        location_group_url("https://api.example.com"),
        "https://api.example.com/RESTApi/LocationGroup"
    );
    assert_eq!(
        schedule_group_url("https://api.example.com"),
        "https://api.example.com/RESTApi/ScheduleGroup"
    );
}
