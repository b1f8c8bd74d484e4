use watts_sync::errors::SyncError;
use watts_sync::errors::is_success_status;
use watts_sync::errors::classify_response;
use watts_sync::numfmt::i64_to_string;
use watts_sync::numfmt::u64_to_string;
use watts_sync::order::str_leq;
use watts_sync::storage::activity_file_exists;
use watts_sync::storage::activity_file_path;
use watts_sync::streams::decode_streams;
use watts_sync::streams::stream_request_query;
use watts_sync::sync::page_query;
use watts_sync::token::parse_token_response;
use watts_sync::token::token_request_form;

#[test]
fn decode_streams_reads_each_key_independently() {
    let body = r#"{"time":{"data":[0,1,2]},"watts":{"data":[100.5,110.0]},"heartrate":{"data":"malformed"},"cadence":{"data":[80,82]},"altitude":{"series":[9.9]}}"#;
    let s = decode_streams(body).expect("valid JSON decodes");
    assert_eq!(s.time, Some(vec![0, 1, 2]));
    assert_eq!(s.watts, Some(vec!["100.5".to_string(), "110.0".to_string()]));
    assert_eq!(s.heartrate, None);
    assert_eq!(s.cadence, Some(vec![80, 82]));
    assert_eq!(s.velocity_smooth, None);
    assert_eq!(s.altitude, None);
}

#[test]
fn decode_streams_rejects_a_body_that_is_not_json() {
    assert!(decode_streams("not json at all").is_none());
}

#[test]
fn decode_streams_tolerates_an_empty_object() {
    let s = decode_streams("{}").expect("an empty object decodes");
    assert_eq!(s.time, None);
    assert_eq!(s.watts, None);
    assert_eq!(s.heartrate, None);
    assert_eq!(s.cadence, None);
    assert_eq!(s.velocity_smooth, None);
    assert_eq!(s.altitude, None);
}

#[test]
fn stream_request_query_names_the_six_keys() {
    let q = stream_request_query();
    assert_eq!(q.len(), 2);
    assert_eq!(q[0].0, "keys");
    assert_eq!(q[0].1, "time,watts,heartrate,cadence,velocity_smooth,altitude");
    assert_eq!(q[1].0, "key_by_type");
    assert_eq!(q[1].1, "true");
}

#[test]
fn page_query_renders_page_numbers_in_decimal() {
    let q = page_query(3, 50);
    assert_eq!(q.len(), 2);
    assert_eq!(q[0], ("page".to_string(), "3".to_string()));
    assert_eq!(q[1], ("per_page".to_string(), "50".to_string()));
}

#[test]
fn token_form_carries_the_four_fields() {
    let form = token_request_form("id1", "client-secret-value", "refresh1");
    assert_eq!(form.len(), 4);
    assert_eq!(form[0], ("client_id".to_string(), "id1".to_string()));
    assert_eq!(form[1], ("client_secret".to_string(), "client-secret-value".to_string()));
    assert_eq!(form[2], ("refresh_token".to_string(), "refresh1".to_string()));
    assert_eq!(form[3], ("grant_type".to_string(), "refresh_token".to_string()));
}

#[test]
fn token_response_with_both_fields_parses() {
    let r = parse_token_response(r#"{"access_token":"abc123","expires_at":1714000000}"#);
    assert_eq!(r.unwrap(), "abc123");
}

#[test]
fn token_response_without_expiry_is_an_auth_error() {
    let r = parse_token_response(r#"{"access_token":"abc123"}"#);
    assert!(matches!(r, Err(SyncError::Auth)));
}

#[test]
fn token_response_that_is_not_json_is_an_auth_error() {
    assert!(matches!(parse_token_response("oops"), Err(SyncError::Auth)));
}

#[test]
fn success_statuses_hand_the_body_on() {
    assert!(is_success_status(200));
    assert!(is_success_status(299));
    assert!(!is_success_status(300));
    assert!(!is_success_status(404));
    let r = classify_response(200, "[]".to_string());
    assert_eq!(r.unwrap(), "[]");
}

#[test]
fn error_statuses_carry_status_and_body() {
    let r = classify_response(429, "slow down".to_string());
    match r {
        Err(SyncError::Api { status, body }) => {
            assert_eq!(status, 429);
            assert_eq!(body, "slow down");
        }
        _ => panic!("a non-success status must be an Api error"),
    }
}

#[test]
fn decimal_rendering_matches_the_usual_notation() {
    assert_eq!(u64_to_string(0), "0");
    assert_eq!(u64_to_string(10), "10");
    assert_eq!(u64_to_string(1234567890), "1234567890");
    assert_eq!(i64_to_string(-42), "-42");
    assert_eq!(i64_to_string(i64::MIN), "-9223372036854775808");
    assert_eq!(i64_to_string(i64::MAX), "9223372036854775807");
}

#[test]
fn activity_paths_are_keyed_by_id() {
    assert_eq!(activity_file_path(12345), "data/activities/12345.json");
}

#[test]
fn absent_detail_files_are_reported_absent() {
    assert!(!activity_file_exists(987654321012345678));
}

#[test]
fn date_strings_compare_chronologically() {
    assert!(str_leq("2024-01-01T00:00:00Z", "2024-01-02T00:00:00Z"));
    assert!(!str_leq("2024-02-01T00:00:00Z", "2024-01-02T00:00:00Z"));
    assert!(str_leq("2024-01-01", "2024-01-01"));
    assert!(str_leq("2024-01-01", "2024-01-01T00:00:00Z"));
    assert!(!str_leq("2024-01-01T00:00:00Z", "2024-01-01"));
}
