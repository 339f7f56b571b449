use fitbit_exporter::client::{Credential, FitbitClient, RenewalOutcome, RenewalStep};
use fitbit_exporter::day::Day;
use fitbit_exporter::error::FitbitError;
use fitbit_exporter::json::Json;

fn object(members: Vec<(&str, Json)>) -> Json {
    Json::Object(members.into_iter().map(|(k, v)| (k.to_string(), v)).collect())
}

fn text(s: &str) -> Json {
    Json::Str(s.to_string())
}

fn client(refresh: Option<&str>) -> FitbitClient {
    FitbitClient::new("id", "secret", &refresh.map(|s| s.to_string()), "access-0")
}

fn pair(access: &str, refresh: Option<&str>) -> Credential {
    Credential { access_token: access.to_string(), refresh_token: refresh.map(|s| s.to_string()) }
}

#[test]
fn new_client_holds_its_credential() {
    let c = client(Some("refresh-0"));
    assert_eq!(c.client_id, "id");
    assert_eq!(c.client_secret, "secret");
    let r = c.read();
    assert_eq!(r.access_token, "access-0");
    assert_eq!(r.refresh_token.as_deref(), Some("refresh-0"));
}

#[test]
fn renewal_success_replaces_both_secrets() {
    let mut c = client(Some("refresh-0"));
    let before = c.read();
    match c.renewal_step() {
        RenewalStep::Exchange(s) => assert_eq!(s, "refresh-0"),
        RenewalStep::Skip => panic!("a renewal secret is configured"),
    }
    assert!(c.refresh_access_token(RenewalOutcome::Success(pair("access-1", Some("refresh-1")))).is_ok());
    let after = c.read();
    assert_eq!(before.access_token, "access-0");
    assert_eq!(before.refresh_token.as_deref(), Some("refresh-0"));
    assert_eq!(after.access_token, "access-1");
    assert_eq!(after.refresh_token.as_deref(), Some("refresh-1"));
}

#[test]
fn renewal_without_secret_is_a_noop() {
    let mut c = client(None);
    assert!(matches!(c.renewal_step(), RenewalStep::Skip));
    let r = c.refresh_access_token(RenewalOutcome::Success(pair("access-1", Some("refresh-1"))));
    assert!(r.is_ok());
    assert_eq!(c.read().access_token, "access-0");
    assert_eq!(c.read().refresh_token, None);
}

#[test]
fn invalid_grant_keeps_the_old_credential() {
    let mut c = client(Some("refresh-0"));
    let r = c.refresh_access_token(RenewalOutcome::InvalidGrant);
    assert!(matches!(r, Err(FitbitError::InvalidGrant)));
    let after = c.read();
    assert_eq!(after.access_token, "access-0");
    assert_eq!(after.refresh_token.as_deref(), Some("refresh-0"));
}

#[test]
fn transient_failure_keeps_the_old_credential() {
    let mut c = client(Some("refresh-0"));
    let r = c.refresh_access_token(RenewalOutcome::TransientFailure("timeout".to_string()));
    match r {
        Err(FitbitError::TokenError(d)) => assert_eq!(d, "timeout"),
        other => panic!("unexpected {:?}", other),
    }
    assert_eq!(c.read().access_token, "access-0");
}

#[test]
fn renewal_without_access_token_is_refused() {
    let mut c = client(Some("refresh-0"));
    let r = c.refresh_access_token(RenewalOutcome::Success(pair("", Some("refresh-1"))));
    assert!(matches!(r, Err(FitbitError::TokenError(_))));
    assert_eq!(c.read().access_token, "access-0");
    assert_eq!(c.read().refresh_token.as_deref(), Some("refresh-0"));
}

#[test]
fn requests_carry_the_current_access_token() {
    let mut c = client(Some("refresh-0"));
    let q = c.steps_request().unwrap();
    assert_eq!(q.url, "https://api.fitbit.com/1/user/-/activities/steps/date/today/1d.json");
    assert_eq!(q.bearer_token, "access-0");
    c.refresh_access_token(RenewalOutcome::Success(pair("access-1", None))).unwrap();
    assert_eq!(c.steps_request().unwrap().bearer_token, "access-1");
    assert_eq!(c.sleep_request().unwrap().url, "https://api.fitbit.com/1.2/user/-/sleep/date/2023-03-04.json");
}

#[test]
fn range_request_names_both_days() {
    let c = client(None);
    let start = Day::parse("2023-01-01").unwrap();
    let end = Day::parse("2023-01-02").unwrap();
    let q = c.steps_range_request(start, end).unwrap();
    assert_eq!(q.url, "https://api.fitbit.com/1/user/-/activities/steps/date/2023-01-01/2023-01-02.json");
    assert_eq!(q.bearer_token, "access-0");
    assert!(c.steps_range_request(start, start).is_ok());
}

#[test]
fn range_request_refuses_reversed_range() {
    let c = client(None);
    let start = Day::parse("2023-01-02").unwrap();
    let end = Day::parse("2023-01-01").unwrap();
    assert!(matches!(c.steps_range_request(start, end), Err(FitbitError::InvalidRange)));
}

#[test]
fn range_request_refuses_days_outside_the_calendar() {
    let c = client(None);
    let start = Day::parse("2023-01-01").unwrap();
    let end = Day::from_days_from_ce(i32::MAX);
    assert!(matches!(c.steps_range_request(start, end), Err(FitbitError::InvalidRange)));
}

#[test]
fn expired_token_response_is_classified() {
    let body = object(vec![("errors", Json::Array(vec![object(vec![("errorType", text("expired_token"))])]))]);
    assert!(matches!(FitbitClient::fetch_data(Ok(body)), Err(FitbitError::AccessTokenExpired)));
}

#[test]
fn other_error_types_are_payloads() {
    let body = object(vec![("errors", Json::Array(vec![object(vec![("errorType", text("invalid_token"))])]))]);
    assert!(FitbitClient::fetch_data(Ok(body)).is_ok());
}

#[test]
fn transport_errors_pass_through() {
    let r = FitbitClient::fetch_steps(Err(FitbitError::HttpError("refused".to_string())));
    match r {
        Err(FitbitError::HttpError(d)) => assert_eq!(d, "refused"),
        other => panic!("unexpected {:?}", other),
    }
}

#[test]
fn steps_are_read_from_the_payload() {
    let body = object(vec![(
        "activities-steps",
        Json::Array(vec![object(vec![("dateTime", text("2023-01-01")), ("value", text("4321"))])]),
    )]);
    assert_eq!(FitbitClient::fetch_steps(Ok(body)).unwrap(), 4321);
}

#[test]
fn steps_payload_of_the_wrong_shape() {
    let missing = object(vec![("activities-steps", Json::Array(vec![]))]);
    assert!(matches!(FitbitClient::fetch_steps(Ok(missing)), Err(FitbitError::InvalidData)));
    let number = object(vec![(
        "activities-steps",
        Json::Array(vec![object(vec![("value", Json::Number("4321".to_string()))])]),
    )]);
    assert!(matches!(FitbitClient::fetch_steps(Ok(number)), Err(FitbitError::InvalidData)));
    let words = object(vec![("activities-steps", Json::Array(vec![object(vec![("value", text("many"))])]))]);
    assert!(matches!(FitbitClient::fetch_steps(Ok(words)), Err(FitbitError::InvalidData)));
}

#[test]
fn sleep_payload_is_classified_only() {
    let body = object(vec![("sleep", Json::Array(vec![]))]);
    assert!(FitbitClient::fetch_sleep(Ok(body)).is_ok());
}

#[test]
fn range_payload_is_read_in_order() {
    let body = object(vec![(
        "activities-steps",
        Json::Array(vec![
            object(vec![("dateTime", text("2023-01-01")), ("value", text("100"))]),
            object(vec![("dateTime", text("2023-01-02")), ("value", text("200"))]),
        ]),
    )]);
    let days = FitbitClient::fetch_steps_range(Ok(body)).unwrap();
    assert_eq!(days, vec![(Day::parse("2023-01-01").unwrap(), 100), (Day::parse("2023-01-02").unwrap(), 200)]);
}

#[test]
fn range_payload_with_a_bad_entry_fails_whole() {
    let body = object(vec![(
        "activities-steps",
        Json::Array(vec![
            object(vec![("dateTime", text("2023-01-01")), ("value", text("100"))]),
            object(vec![("dateTime", text("01/02/2023")), ("value", text("200"))]),
        ]),
    )]);
    assert!(matches!(FitbitClient::fetch_steps_range(Ok(body)), Err(FitbitError::InvalidData)));
    let not_array = object(vec![("activities-steps", text("none"))]);
    assert!(matches!(FitbitClient::fetch_steps_range(Ok(not_array)), Err(FitbitError::InvalidData)));
}

#[test]
fn text_that_is_not_a_url_is_refused() {
    let c = client(None);
    match c.request("not a url") {
        Err(FitbitError::UrlError(m)) => assert_eq!(m, "relative URL without a base"),
        other => panic!("unexpected {:?}", other),
    }
    assert_eq!(c.request("https://example.com/a.json").unwrap().url, "https://example.com/a.json");
}

#[test]
fn unsuccessful_status_is_a_transport_error() {
    let body = object(vec![("errors", Json::Array(vec![object(vec![("errorType", text("not_found"))])]))]);
    match FitbitClient::classify_response(404, body) {
        Err(FitbitError::HttpError(m)) => assert_eq!(m, "HTTP status 404"),
        other => panic!("unexpected {:?}", other),
    }
    assert!(matches!(FitbitClient::classify_response(500, Json::Null), Err(FitbitError::HttpError(_))));
    assert!(matches!(FitbitClient::classify_response(199, Json::Null), Err(FitbitError::HttpError(_))));
}

#[test]
fn expiry_marker_wins_over_status() {
    let body = object(vec![("errors", Json::Array(vec![object(vec![("errorType", text("expired_token"))])]))]);
    assert!(matches!(FitbitClient::classify_response(401, body), Err(FitbitError::AccessTokenExpired)));
}

#[test]
fn successful_status_gives_the_body() {
    let body = object(vec![("activities-steps", Json::Array(vec![object(vec![("value", text("12"))])]))]);
    let r = FitbitClient::classify_response(200, body);
    assert_eq!(FitbitClient::fetch_steps(r).unwrap(), 12);
    assert!(FitbitClient::classify_response(299, Json::Null).is_ok());
}
