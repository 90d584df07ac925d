use mowz::json::{Entry, JsonValue};
use mowz::railway::{extract_entries, find_graphql_errors, railway_request, RailwayAuth, RailwayScope, ScopeError};
use mowz::http::Credential;
use mowz::time_range::Timestamp;

fn text(s: &str) -> JsonValue {
    JsonValue::Str(s.to_owned())
}

fn object(members: Vec<(&str, JsonValue)>) -> JsonValue {
    let mut sorted: Vec<(String, JsonValue)> = members.into_iter().map(|(k, v)| (k.to_owned(), v)).collect();
    sorted.sort_by(|a, b| a.0.cmp(&b.0));
    JsonValue::Object(sorted)
}

fn fields(entry: &Entry) -> Vec<(String, JsonValue)> {
    (0..entry.len()).map(|i| (entry.key_at(i).clone(), entry.value_at(i).deep_clone())).collect()
}

#[test]
fn builds_explicit_railway_scope_filters() {
    assert_eq!(
        RailwayScope::Service.filter(Some("service-id"), "@level:error OR timeout").unwrap(),
        "@service:service-id AND (@level:error OR timeout)"
    );
    assert_eq!(
        RailwayScope::Environment.filter(None, "@level:error OR timeout").unwrap(),
        "@level:error OR timeout"
    );
    assert_eq!(
        RailwayScope::Service.filter(None, "error").unwrap_err().message(),
        "Railway service scope requires service_id"
    );
    assert_eq!(
        RailwayScope::Environment.filter(Some("service-id"), "error").unwrap_err().message(),
        "Railway environment scope must not configure service_id"
    );
}

#[test]
fn service_scope_with_an_empty_filter_selects_the_service() {
    assert_eq!(RailwayScope::Service.filter(Some("service-id"), "").unwrap(), "@service:service-id");
}

#[test]
fn scope_validation_matches_the_filter_errors() {
    assert_eq!(RailwayScope::Service.validate(true), Ok(()));
    assert_eq!(RailwayScope::Environment.validate(false), Ok(()));
    assert_eq!(RailwayScope::Service.validate(false), Err(ScopeError::ServiceScopeRequiresServiceId));
    assert_eq!(RailwayScope::Environment.validate(true), Err(ScopeError::EnvironmentScopeForbidsServiceId));
}

fn railway_response() -> JsonValue {
    object(vec![(
        "data",
        object(vec![(
            "environmentLogs",
            JsonValue::Array(vec![object(vec![
                ("timestamp", text("2026-08-18T12:00:00Z")),
                ("message", text("request completed")),
                ("severity", text("info")),
                ("tags", object(vec![("serviceId", text("service-id")), ("deploymentId", text("deployment-id"))])),
            ])]),
        )]),
    )])
}

#[test]
fn parses_railway_logs_into_entries() {
    let entries = extract_entries(&railway_response());

    assert_eq!(entries.len(), 1);
    assert_eq!(
        fields(&entries[0]),
        vec![
            ("deploymentId".to_owned(), text("deployment-id")),
            ("message".to_owned(), text("request completed")),
            ("serviceId".to_owned(), text("service-id")),
            ("severity".to_owned(), text("info")),
            ("timestamp".to_owned(), text("2026-08-18T12:00:00Z")),
        ]
    );
}

#[test]
fn drops_null_fields_empty_lines_and_non_objects() {
    let response = object(vec![(
        "data",
        object(vec![(
            "environmentLogs",
            JsonValue::Array(vec![
                object(vec![("message", text("kept")), ("severity", JsonValue::Null), ("extra", text("ignored"))]),
                object(vec![("severity", JsonValue::Null), ("tags", text("not an object"))]),
                text("not an object"),
                object(vec![("tags", object(vec![("serviceId", text("service-id"))]))]),
            ]),
        )]),
    )]);

    let entries = extract_entries(&response);

    assert_eq!(entries.len(), 2);
    assert_eq!(fields(&entries[0]), vec![("message".to_owned(), text("kept"))]);
    assert_eq!(fields(&entries[1]), vec![("serviceId".to_owned(), text("service-id"))]);
}

#[test]
fn responses_without_log_lines_have_no_entries() {
    assert!(extract_entries(&object(vec![])).is_empty());
    assert!(extract_entries(&object(vec![("data", object(vec![("environmentLogs", JsonValue::Null)]))])).is_empty());
}

#[test]
fn reports_non_empty_graphql_errors() {
    let errors = JsonValue::Array(vec![object(vec![("message", text("not authorized"))])]);
    let response = object(vec![("errors", errors.deep_clone())]);
    assert_eq!(find_graphql_errors(&response), Some(&errors));
    assert_eq!(find_graphql_errors(&object(vec![("errors", JsonValue::Array(vec![]))])), None);
    assert_eq!(find_graphql_errors(&railway_response()), None);
}

#[test]
fn builds_bounded_railway_environment_requests() {
    // 2026-08-18T11:00:00Z to 2026-08-18T12:00:00Z
    let from = Timestamp { secs: 1787050800, nanos: 0 };
    let to = Timestamp { secs: 1787054400, nanos: 0 };
    let request = railway_request(
        "https://railway.example/graphql/v2",
        "secret-token",
        RailwayAuth::ProjectToken,
        "environment-id",
        "@service:service-id AND (@level:error OR timeout)",
        from,
        to,
    );

    assert_eq!(request.url, "https://railway.example/graphql/v2");
    assert_eq!(request.credential, Credential::ProjectAccessToken("secret-token".to_owned()));
    let variables = request.body.get("variables").unwrap();
    assert_eq!(variables.get("environmentId"), Some(&text("environment-id")));
    assert_eq!(variables.get("beforeLimit"), Some(&JsonValue::Number("101".to_owned())));
    assert_eq!(variables.get("afterLimit"), Some(&JsonValue::Number("0".to_owned())));
    assert_eq!(variables.get("filter"), Some(&text("@service:service-id AND (@level:error OR timeout)")));
    assert_eq!(variables.get("beforeDate"), Some(&text("2026-08-18T11:00:00Z")));
    assert_eq!(variables.get("anchorDate"), Some(&text("2026-08-18T12:00:00Z")));
    assert_eq!(variables.get("afterDate"), Some(&text("2026-08-18T12:00:00Z")));
    match request.body.get("query") {
        Some(JsonValue::Str(query)) => assert!(query.starts_with("query EnvironmentLogs(")),
        other => panic!("unexpected query {other:?}"),
    }

    let bearer = railway_request("u", "t", RailwayAuth::Bearer, "e", "f", from, to);
    assert_eq!(bearer.credential, Credential::Bearer("t".to_owned()));
}
