use mowz::grafana::{
    extract_entries, grafana_request, GrafanaData, GrafanaField, GrafanaFrame, GrafanaResponse, GrafanaResult,
    GrafanaSchema,
};
use mowz::http::Credential;
use mowz::json::{Entry, JsonValue};
use mowz::strmap::StrMap;
use mowz::TimeRange;

fn text(s: &str) -> JsonValue {
    JsonValue::Str(s.to_owned())
}

fn fields(entry: &Entry) -> Vec<(String, JsonValue)> {
    (0..entry.len()).map(|i| (entry.key_at(i).clone(), entry.value_at(i).deep_clone())).collect()
}

fn frame(names: Vec<Option<&str>>, values: Vec<Vec<JsonValue>>) -> GrafanaFrame {
    GrafanaFrame {
        schema: GrafanaSchema { fields: names.into_iter().map(|n| GrafanaField { name: n.map(str::to_owned) }).collect() },
        data: GrafanaData { values },
    }
}

fn response(frames: Vec<GrafanaFrame>) -> GrafanaResponse {
    let mut results = StrMap::new();
    results.insert("A".to_owned(), GrafanaResult { frames });
    GrafanaResponse { results }
}

#[test]
fn parses_grafana_frames_into_entries() {
    let response = response(vec![frame(
        vec![Some("Time"), Some("Line")],
        vec![vec![text("2026-08-18T12:00:00Z")], vec![text("request completed")]],
    )]);

    let entries = extract_entries(&response);

    assert_eq!(entries.len(), 1);
    assert_eq!(
        fields(&entries[0]),
        vec![("Line".to_owned(), text("request completed")), ("Time".to_owned(), text("2026-08-18T12:00:00Z"))]
    );
}

#[test]
fn accepts_empty_grafana_results() {
    let response = GrafanaResponse { results: StrMap::new() };

    assert!(extract_entries(&response).is_empty());
}

#[test]
fn names_unnamed_columns_and_skips_nulls_and_empty_rows() {
    let response = response(vec![frame(
        vec![None, Some(""), Some("Line")],
        vec![
            vec![text("a"), JsonValue::Null, JsonValue::Null],
            vec![JsonValue::Bool(true)],
            vec![text("first"), JsonValue::Null],
        ],
    )]);

    let entries = extract_entries(&response);

    // Row 2 has no value, so it gives no entry.
    assert_eq!(entries.len(), 1);
    assert_eq!(
        fields(&entries[0]),
        vec![
            ("Line".to_owned(), text("first")),
            ("field_0".to_owned(), text("a")),
            ("field_1".to_owned(), JsonValue::Bool(true)),
        ]
    );
}

#[test]
fn keeps_rows_of_the_longest_column_and_later_duplicate_names() {
    let response = response(vec![
        frame(vec![Some("x"), Some("x")], vec![vec![text("one")], vec![text("two"), text("three")]]),
        frame(vec![Some("y")], vec![vec![JsonValue::Number("42".to_owned())]]),
    ]);

    let entries = extract_entries(&response);

    assert_eq!(entries.len(), 3);
    assert_eq!(fields(&entries[0]), vec![("x".to_owned(), text("two"))]);
    assert_eq!(fields(&entries[1]), vec![("x".to_owned(), text("three"))]);
    assert_eq!(fields(&entries[2]), vec![("y".to_owned(), JsonValue::Number("42".to_owned()))]);
}

#[test]
fn builds_grafana_requests() {
    let range = TimeRange::new("now-6h", "now-30m");
    let request = grafana_request("https://g.example/", "victoria-logs", "secret-token", "query", None, &range, 101);

    assert_eq!(request.url, "https://g.example/api/ds/query");
    assert_eq!(request.credential, Credential::Bearer("secret-token".to_owned()));
    let query = match request.body.get("queries") {
        Some(JsonValue::Array(q)) => q[0].deep_clone(),
        other => panic!("unexpected {other:?}"),
    };
    assert_eq!(query.get("extraFilters"), None);
    assert_eq!(query.get("maxLines"), Some(&JsonValue::Number("101".to_owned())));
    assert_eq!(
        query.get("datasource"),
        Some(&JsonValue::Object(vec![("uid".to_owned(), text("victoria-logs"))]))
    );
}

#[test]
fn flattens_results_in_name_order_and_frames_in_turn() {
    let one = |line: &str| frame(vec![Some("Line")], vec![vec![text(line)]]);
    let mut results = StrMap::new();
    results.insert("B".to_owned(), GrafanaResult { frames: vec![one("b1"), one("b2")] });
    results.insert("A".to_owned(), GrafanaResult { frames: vec![one("a1"), frame(vec![Some("Line")], vec![vec![text("a2"), text("a3")]])] });
    let entries = extract_entries(&GrafanaResponse { results });
    let lines: Vec<JsonValue> = entries.iter().map(|e| e.get("Line").unwrap().deep_clone()).collect();
    assert_eq!(lines, vec![text("a1"), text("a2"), text("a3"), text("b1"), text("b2")]);
}
