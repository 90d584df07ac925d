use mowz::config_value::{EnvLookup, OpError, ResolveError, StringSource, StringValue};
use mowz::grafana::{GrafanaData, GrafanaField, GrafanaFrame, GrafanaResponse, GrafanaResult, GrafanaSchema};
use mowz::http::Credential;
use mowz::json::JsonValue;
use mowz::strmap::StrMap;
use mowz::railway::{RailwayAuth, RailwayScope, ScopeError, RAILWAY_API_URL};
use mowz::time_range::{RangeError, TimeError, Timestamp};
use mowz::{
    bound_entries, query_project, read_token, Backend, BackendKind, BackendProblem, Config, Field, QueryError,
    TimeRange, MAX_RESULT_LIMIT,
};

fn literal(s: &str) -> StringValue {
    StringValue::Literal(s.to_owned())
}

fn env(name: &str) -> StringValue {
    StringValue::Source(StringSource { env: Some(name.to_owned()), op: None, op_account: None })
}

fn no_env(_: &str) -> EnvLookup {
    EnvLookup::NotPresent
}

fn no_op(_: &str, _: Option<&str>) -> Result<String, OpError> {
    Err(OpError::Launch { detail: "op is not installed".to_owned() })
}

fn victoria_logs(token: StringValue, scope_filter: Option<StringValue>) -> Backend {
    Backend::VictoriaLogs {
        url: literal("https://grafana.example.com/"),
        datasource_uid: literal("victoria-logs"),
        token,
        scope_filter,
    }
}

fn railway(scope: RailwayScope, service_id: Option<StringValue>) -> Backend {
    Backend::Railway {
        environment_id: literal("environment-id"),
        scope,
        service_id,
        token: env("RAILWAY_TOKEN"),
        auth: RailwayAuth::ProjectToken,
    }
}

// 2026-08-18T12:00:00Z
const NOW: Timestamp = Timestamp { secs: 1787054400, nanos: 0 };

#[test]
fn rejects_empty_resolved_token() {
    let error = read_token(&StringValue::Literal(String::new()), &no_env, &no_op).unwrap_err();

    assert_eq!(error.message(), "configured token resolved to an empty value");
}

#[test]
fn labels_token_resolution_failures() {
    let error = read_token(&env("MISSING"), &no_env, &no_op).unwrap_err();
    assert_eq!(
        error,
        QueryError::Resolve { field: Field::Token, error: ResolveError::EnvNotSet { name: "MISSING".to_owned() } }
    );
    assert_eq!(error.message(), "failed to resolve `token`");
    assert_eq!(read_token(&literal("t"), &no_env, &no_op), Ok("t".to_owned()));
}

#[test]
fn lists_projects_in_name_order_with_their_backends() {
    let mut config = Config::new();
    config.add_project("worker".to_owned(), railway(RailwayScope::Service, Some(literal("service-id"))));
    config.add_project("api".to_owned(), victoria_logs(env("GRAFANA_TOKEN"), None));

    assert_eq!(config.projects(), [("api", "victoria_logs"), ("worker", "railway")]);
}

#[test]
fn a_project_added_twice_keeps_the_later_backend() {
    let mut config = Config::new();
    config.add_project("api".to_owned(), victoria_logs(env("GRAFANA_TOKEN"), None));
    config.add_project("api".to_owned(), railway(RailwayScope::Environment, None));
    assert_eq!(config.projects(), [("api", "railway")]);
}

#[test]
fn rejects_invalid_railway_scope_relationships_when_loading_config() {
    for (scope, service_id, expected) in [
        (RailwayScope::Service, None, "Railway service scope requires service_id"),
        (
            RailwayScope::Environment,
            Some(env("MOWZ_TEST_MISSING_SERVICE_ID")),
            "Railway environment scope must not configure service_id",
        ),
    ] {
        let mut config = Config::new();
        config.add_project("api".to_owned(), railway(scope, service_id));
        let error = config.validate().unwrap_err();
        assert_eq!(error.message(), "invalid project \"api\"");
        assert_eq!(error.problem.message(), expected);
    }
}

#[test]
fn rejects_invalid_secret_source_structure_when_loading_config() {
    let mut config = Config::new();
    let token = StringValue::Source(StringSource {
        env: Some("MOWZ_TEST_MISSING_TOKEN".to_owned()),
        op: None,
        op_account: Some("account-id".to_owned()),
    });
    config.add_project("api".to_owned(), victoria_logs(token, None));

    let error = config.validate().unwrap_err();
    assert_eq!(error.project, "api");
    assert_eq!(error.problem.message(), "invalid `token`");
    match &error.problem {
        BackendProblem::Field { error, .. } => {
            assert!(error.message().contains("cannot configure `op_account` without `op`"))
        },
        other => panic!("unexpected problem {other:?}"),
    }
}

#[test]
fn validation_reports_the_first_invalid_project_in_name_order() {
    let mut config = Config::new();
    config.add_project("zeta".to_owned(), railway(RailwayScope::Service, None));
    config.add_project("alpha".to_owned(), railway(RailwayScope::Environment, Some(literal("s"))));
    config.add_project("beta".to_owned(), victoria_logs(env("T"), None));
    let error = config.validate().unwrap_err();
    assert_eq!(error.project, "alpha");
    assert_eq!(error.problem, BackendProblem::Scope(ScopeError::EnvironmentScopeForbidsServiceId));

    let mut valid = Config::new();
    valid.add_project("api".to_owned(), victoria_logs(env("T"), Some(literal("_stream:{x=\"y\"}"))));
    assert_eq!(valid.validate(), Ok(()));
}

#[test]
fn bounds_entries_to_the_newest_or_the_first() {
    let entries: Vec<u32> = (0..101).collect();
    let (newest, truncated) = bound_entries(entries.clone(), true, 100);
    assert!(truncated);
    assert_eq!(newest.len(), 100);
    assert_eq!(newest[0], 1);
    assert_eq!(newest[99], 100);
    let (first, truncated) = bound_entries(entries.clone(), false, 3);
    assert!(truncated);
    assert_eq!(first, [0, 1, 2]);
    assert_eq!(bound_entries(vec![7, 8], true, 3), (vec![7, 8], false));
    assert_eq!(bound_entries(vec![7, 8, 9], false, 3), (vec![7, 8, 9], false));
}

#[test]
fn queries_bounded_railway_environment_logs() {
    let logs: Vec<String> = (0..101)
        .map(|number| {
            format!(
                r#"{{"timestamp":"2026-08-18T12:00:{:02}Z","message":"line {number}","severity":"info","tags":{{"serviceId":"service-id","deploymentId":"deployment-{number}"}}}}"#,
                number % 60
            )
        })
        .collect();
    let body = format!(r#"{{"data":{{"environmentLogs":[{}]}}}}"#, logs.join(","));
    let mut config = Config::new();
    config.add_project("worker".to_owned(), railway(RailwayScope::Environment, None));
    let token = |_: &str| EnvLookup::Present("secret-token".to_owned());
    let prepared = query_project(&config, "worker", "q", &TimeRange::default(), 100, NOW, &token, &no_op).unwrap();
    let all = prepared.railway_reply_entries(&body).unwrap();
    assert_eq!(all.len(), 100);

    let response = JsonValue::Object(vec![(
        "data".to_owned(),
        JsonValue::Object(vec![(
            "environmentLogs".to_owned(),
            JsonValue::Array(
                (0..101)
                    .map(|number| {
                        JsonValue::Object(vec![
                            ("message".to_owned(), JsonValue::Str(format!("line {number}"))),
                            (
                                "tags".to_owned(),
                                JsonValue::Object(vec![
                                    ("deploymentId".to_owned(), JsonValue::Str(format!("deployment-{number}"))),
                                    ("serviceId".to_owned(), JsonValue::Str("service-id".to_owned())),
                                ]),
                            ),
                        ])
                    })
                    .collect(),
            ),
        )]),
    )]);
    let lines = mowz::railway::extract_entries(&response);
    let (entries, truncated) = bound_entries(lines, true, 100);
    assert!(truncated);
    assert_eq!(entries.len(), 100);
    assert_eq!(entries[0].get("message"), Some(&JsonValue::Str("line 1".to_owned())));
    assert_eq!(entries[0].get("serviceId"), Some(&JsonValue::Str("service-id".to_owned())));
    assert_eq!(entries[0].get("deploymentId"), Some(&JsonValue::Str("deployment-1".to_owned())));
    assert_eq!(entries[99].get("message"), Some(&JsonValue::Str("line 100".to_owned())));
}

#[test]
fn rejects_limits_outside_the_supported_range() {
    let config = Config::new();
    for limit in [0, MAX_RESULT_LIMIT + 1] {
        let error = query_project(&config, "api", "query", &TimeRange::default(), limit, NOW, &no_env, &no_op)
            .unwrap_err();
        assert_eq!(error, QueryError::LimitOutOfRange);
        assert_eq!(error.message(), "limit must be between 1 and 100");
    }
}

#[test]
fn query_accepts_skill_as_a_project_name() {
    let config = Config::new();
    let error = query_project(&config, "skill", "error", &TimeRange::default(), 3, NOW, &no_env, &no_op)
        .unwrap_err();
    assert_eq!(error.message(), "project \"skill\" is not configured");
}

#[test]
fn prepares_grafana_queries_with_the_scope_filter_apart() {
    let mut config = Config::new();
    config.add_project(
        "api".to_owned(),
        victoria_logs(env("GRAFANA_TOKEN"), Some(literal("_stream:{environment=\"production\"}"))),
    );
    let prepared = query_project(
        &config,
        "api",
        "_stream:{app=\"api\"}",
        &TimeRange::new("now-6h", "now-30m"),
        3,
        NOW,
        &|_: &str| EnvLookup::Present("secret-token".to_owned()),
        &no_op,
    )
    .unwrap();

    assert_eq!(prepared.kind, BackendKind::VictoriaLogs);
    assert_eq!(prepared.limit, 3);
    assert_eq!(prepared.request.url, "https://grafana.example.com/api/ds/query");
    assert_eq!(prepared.request.credential, Credential::Bearer("secret-token".to_owned()));
    let body = &prepared.request.body;
    assert_eq!(body.get("from"), Some(&JsonValue::Str("now-6h".to_owned())));
    assert_eq!(body.get("to"), Some(&JsonValue::Str("now-30m".to_owned())));
    let query = match body.get("queries") {
        Some(JsonValue::Array(queries)) => &queries[0],
        other => panic!("unexpected queries {other:?}"),
    };
    assert_eq!(query.get("expr"), Some(&JsonValue::Str("_stream:{app=\"api\"}".to_owned())));
    assert_eq!(
        query.get("extraFilters"),
        Some(&JsonValue::Str("_stream:{environment=\"production\"}".to_owned()))
    );
    assert_eq!(query.get("maxLines"), Some(&JsonValue::Number("3".to_owned())));
    assert_eq!(query.get("refId"), Some(&JsonValue::Str("A".to_owned())));
    assert_eq!(query.get("queryType"), Some(&JsonValue::Str("range".to_owned())));
}

#[test]
fn grafana_queries_do_not_depend_on_the_clock() {
    let mut config = Config::new();
    config.add_project("api".to_owned(), victoria_logs(literal("secret-token"), None));
    let far_past = Timestamp { secs: i64::MIN, nanos: 0 };
    let then = query_project(&config, "api", "error", &TimeRange::default(), 3, far_past, &no_env, &no_op).unwrap();
    let now = query_project(&config, "api", "error", &TimeRange::default(), 3, NOW, &no_env, &no_op).unwrap();
    assert_eq!(then, now);
}

#[test]
fn prepares_railway_queries_with_the_service_scope() {
    let mut config = Config::new();
    config.add_project("worker".to_owned(), railway(RailwayScope::Service, Some(literal("service-id"))));
    let prepared = query_project(
        &config,
        "worker",
        "@level:error",
        &TimeRange::default(),
        5,
        NOW,
        &|_: &str| EnvLookup::Present("secret-token".to_owned()),
        &no_op,
    )
    .unwrap();
    assert_eq!(prepared.kind, BackendKind::Railway);
    assert_eq!(prepared.request.url, RAILWAY_API_URL);
    assert_eq!(prepared.request.credential, Credential::ProjectAccessToken("secret-token".to_owned()));
    let variables = prepared.request.body.get("variables").unwrap();
    assert_eq!(variables.get("filter"), Some(&JsonValue::Str("@service:service-id AND (@level:error)".to_owned())));
}

#[test]
fn railway_queries_follow_the_given_window() {
    let mut config = Config::new();
    config.add_project("worker".to_owned(), railway(RailwayScope::Environment, None));
    let token = |_: &str| EnvLookup::Present("secret-token".to_owned());
    let prepared = query_project(
        &config,
        "worker",
        "@level:error",
        &TimeRange::new("now-15m", "2026-08-18T11:55:00Z"),
        5,
        NOW,
        &token,
        &no_op,
    )
    .unwrap();
    let variables = prepared.request.body.get("variables").unwrap();
    assert_eq!(variables.get("beforeDate"), Some(&JsonValue::Str("2026-08-18T11:45:00Z".to_owned())));
    assert_eq!(variables.get("anchorDate"), Some(&JsonValue::Str("2026-08-18T11:55:00Z".to_owned())));
    assert_eq!(variables.get("afterDate"), Some(&JsonValue::Str("2026-08-18T11:55:00Z".to_owned())));

    let error = query_project(&config, "worker", "q", &TimeRange::new("now", "now-1h"), 5, NOW, &token, &no_op)
        .unwrap_err();
    assert_eq!(error, QueryError::Range(RangeError::FromAfterTo));
    assert_eq!(error.message(), "--from must not be later than --to");

    let error = query_project(&config, "worker", "q", &TimeRange::new("now-5x", "now"), 5, NOW, &token, &no_op)
        .unwrap_err();
    assert_eq!(
        error,
        QueryError::Range(RangeError::InvalidFrom { value: "now-5x".to_owned(), error: TimeError::UnknownUnit })
    );
    assert_eq!(error.message(), "invalid --from value \"now-5x\"");
}

#[test]
fn reports_the_first_failure_while_preparing() {
    let mut config = Config::new();
    config.add_project("worker".to_owned(), railway(RailwayScope::Service, None));
    let error = query_project(&config, "worker", "q", &TimeRange::default(), 5, NOW, &no_env, &no_op).unwrap_err();
    assert_eq!(error, QueryError::Scope(ScopeError::ServiceScopeRequiresServiceId));

    let mut config = Config::new();
    config.add_project("api".to_owned(), victoria_logs(literal(""), None));
    let error = query_project(&config, "api", "q", &TimeRange::default(), 5, NOW, &no_env, &no_op).unwrap_err();
    assert_eq!(error, QueryError::EmptyToken);
}

#[test]
fn checks_reply_statuses() {
    let mut config = Config::new();
    config.add_project("api".to_owned(), victoria_logs(literal("t"), None));
    let prepared = query_project(&config, "api", "q", &TimeRange::default(), 3, NOW, &no_env, &no_op).unwrap();
    assert_eq!(prepared.check_status(200, "ok"), Ok(()));
    let body = format!("useful beginning: {}sentinel tail", "x".repeat(2048));
    let error = prepared.check_status(502, &body).unwrap_err().message();
    assert!(error.contains("status 502 Bad Gateway: useful beginning"));
    assert!(error.ends_with("... [truncated]"));
    assert!(!error.contains("sentinel tail"));
}

#[test]
fn railway_status_errors_keep_the_whole_body() {
    let mut config = Config::new();
    config.add_project("worker".to_owned(), railway(RailwayScope::Environment, None));
    let prepared = query_project(
        &config,
        "worker",
        "q",
        &TimeRange::default(),
        3,
        NOW,
        &|_: &str| EnvLookup::Present("t".to_owned()),
        &no_op,
    )
    .unwrap();
    let error = prepared.check_status(500, "boom").unwrap_err();
    assert_eq!(error.message(), "Railway query failed with status 500 Internal Server Error: boom");
}

#[test]
fn bounds_grafana_replies_to_the_first_entries() {
    let mut config = Config::new();
    config.add_project("api".to_owned(), victoria_logs(literal("t"), None));
    let prepared = query_project(&config, "api", "q", &TimeRange::default(), 100, NOW, &no_env, &no_op).unwrap();
    let lines: Vec<JsonValue> = (0..101).map(|n| JsonValue::Str(format!("line {n}"))).collect();
    let mut results = StrMap::new();
    results.insert(
        "A".to_owned(),
        GrafanaResult {
            frames: vec![GrafanaFrame {
                schema: GrafanaSchema { fields: vec![GrafanaField { name: Some("Line".to_owned()) }] },
                data: GrafanaData { values: vec![lines] },
            }],
        },
    );
    let response = GrafanaResponse { results };
    let entries = prepared.grafana_entries(&response);
    assert_eq!(entries.len(), 100);
    assert_eq!(entries[0].get("Line"), Some(&JsonValue::Str("line 0".to_owned())));
    assert_eq!(entries[99].get("Line"), Some(&JsonValue::Str("line 99".to_owned())));
}

#[test]
fn bounds_railway_replies_to_the_newest_entries() {
    let mut config = Config::new();
    config.add_project("worker".to_owned(), railway(RailwayScope::Environment, None));
    let prepared = query_project(
        &config,
        "worker",
        "q",
        &TimeRange::default(),
        100,
        NOW,
        &|_: &str| EnvLookup::Present("t".to_owned()),
        &no_op,
    )
    .unwrap();
    let lines: Vec<JsonValue> = (0..101)
        .map(|n| JsonValue::Object(vec![("message".to_owned(), JsonValue::Str(format!("line {n}")))]))
        .collect();
    let response = JsonValue::Object(vec![(
        "data".to_owned(),
        JsonValue::Object(vec![("environmentLogs".to_owned(), JsonValue::Array(lines))]),
    )]);
    let entries = prepared.railway_entries(&response).unwrap();
    assert_eq!(entries.len(), 100);
    assert_eq!(entries[0].get("message"), Some(&JsonValue::Str("line 1".to_owned())));
    assert_eq!(entries[99].get("message"), Some(&JsonValue::Str("line 100".to_owned())));

    let failing = JsonValue::Object(vec![(
        "errors".to_owned(),
        JsonValue::Array(vec![JsonValue::Str("not authorized".to_owned())]),
    )]);
    let error = prepared.railway_entries(&failing).unwrap_err();
    assert!(error.message().contains("Railway query returned GraphQL errors"));
}

#[test]
fn reads_railway_reply_bodies() {
    let mut config = Config::new();
    config.add_project("worker".to_owned(), railway(RailwayScope::Environment, None));
    let token = |_: &str| EnvLookup::Present("t".to_owned());
    let prepared = query_project(&config, "worker", "q", &TimeRange::default(), 3, NOW, &token, &no_op).unwrap();

    let error = prepared.railway_reply_entries("not JSON").unwrap_err();
    assert_eq!(error, QueryError::NotJson { kind: BackendKind::Railway });
    assert_eq!(error.message(), "failed to parse Railway response as JSON");

    let error = prepared.railway_reply_entries(r#"{"errors":[{"message":"not authorized"}]}"#).unwrap_err();
    assert_eq!(error.message(), r#"Railway query returned GraphQL errors: [{"message":"not authorized"}]"#);
    let error = prepared.railway_reply_entries(r#"{"errors":[{"path":["a",0],"code":1.5,"ok":false,"x":null}]}"#).unwrap_err();
    assert_eq!(
        error.message(),
        r#"Railway query returned GraphQL errors: [{"code":1.5,"ok":false,"path":["a",0],"x":null}]"#
    );

    let body = r#"{"data":{"environmentLogs":[
        {"timestamp":"2026-08-18T12:00:00Z","message":"line 1","severity":null,"attempt":2,
         "tags":{"serviceId":"service-id","deploymentId":null}},
        {"message":"line 2","level":1.5}
    ]}}"#;
    let entries = prepared.railway_reply_entries(body).unwrap();
    assert_eq!(entries.len(), 2);
    assert_eq!(entries[0].len(), 3);
    assert_eq!(entries[0].get("timestamp"), Some(&JsonValue::Str("2026-08-18T12:00:00Z".to_owned())));
    assert_eq!(entries[0].get("serviceId"), Some(&JsonValue::Str("service-id".to_owned())));
    assert_eq!(entries[0].get("severity"), None);
    assert_eq!(entries[1].len(), 1);
    assert_eq!(entries[1].get("message"), Some(&JsonValue::Str("line 2".to_owned())));
}
