use scapi::api::model::error::ApiError;
use scapi::common::error::CommonError;
use scapi::common::metrics::{export_json_metrics, export_prometheus_metrics, Timer};
use scapi::common::types::{ContentSize, RequestId};
use scapi::AppState;

#[test]
fn api_errors_map_to_codes_and_statuses() {
    let e = ApiError::InvalidSelector("x".to_string());
    assert_eq!(e.error_code(), "INVALID_SELECTOR");
    assert_eq!(e.status(), 400);
    assert_eq!(ApiError::Timeout(String::new()).status(), 504);
    assert_eq!(ApiError::RateLimited(String::new()).error_code(), "RATE_LIMITED");
    assert_eq!(ApiError::ServiceUnavailable(String::new()).status(), 503);
}

#[test]
fn common_error_constructors() {
    assert!(matches!(CommonError::config("c".to_string()), CommonError::ConfigError(ref m) if m == "c"));
    assert!(matches!(CommonError::invalid_input("i".to_string()), CommonError::InvalidInput(_)));
    assert!(matches!(CommonError::serialization("s".to_string()), CommonError::SerializationError(_)));
    assert!(matches!(CommonError::internal("n".to_string()), CommonError::InternalError(_)));
    assert_eq!(CommonError::invalid_input(String::new()).status(), 400);
    assert_eq!(CommonError::internal(String::new()).status(), 500);
}

#[test]
fn content_size_refuses_zero() {
    assert!(ContentSize::new(0).is_err());
    assert_eq!(ContentSize::new(7).unwrap().as_bytes(), 7);
    assert_eq!(ContentSize::new_unchecked(0).as_bytes(), 0);
}

#[test]
fn request_id_round_trip() {
    let id = RequestId::from_string("abc".to_string());
    assert_eq!(id.as_str(), "abc");
    assert_eq!(id.into_string(), "abc");
}

#[test]
fn timer_and_exports() {
    let t = Timer::start("parse".to_string());
    assert_eq!(t.operation, "parse");
    assert_eq!(t.elapsed_at(t.start_ms + 25), 25);
    if t.start_ms > 0 {
        assert_eq!(t.elapsed_at(t.start_ms - 1), 0);
    }
    let _ = t.finish_ms();
    assert_eq!(export_json_metrics(), "{}");
    assert_eq!(export_prometheus_metrics(), "# TYPE scapi_requests_total counter\n");
}

#[test]
fn app_state_defaults() {
    let s = AppState::new().unwrap();
    assert_eq!(s.select_service.streaming_threshold_bytes, 1048576);
    assert_eq!(s.fetch_config.max_redirects, 5);
}
