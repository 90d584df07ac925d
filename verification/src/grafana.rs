use vstd::prelude::*;
use vstd::string::*;

use crate::http::{
    json_object1, json_str, json_usize, push_member, trim_end_char, trim_end_matches, Credential, CredentialView,
    HttpRequest, HttpRequestView,
};
use crate::json::{json_obj_view, json_seq_view, lemma_json_seq_view, lemma_to_map_empty, put, Entry, Json, JsonValue};
use crate::railway::opt_str_view;
use crate::time_range::TimeRange;
use crate::strmap::{keys_sorted, StrMap};
use crate::text::{concat, decimal, decimal_string, owned};

verus! {

/// A field of a Grafana data frame's schema.
#[derive(Debug)]
pub struct GrafanaField {
    pub name: Option<String>,
}

/// The schema of a Grafana data frame.
#[derive(Debug)]
pub struct GrafanaSchema {
    pub fields: Vec<GrafanaField>,
}

/// The columns of a Grafana data frame: `values[column][row]`.
#[derive(Debug)]
pub struct GrafanaData {
    pub values: Vec<Vec<JsonValue>>,
}

/// A Grafana data frame.
#[derive(Debug)]
pub struct GrafanaFrame {
    pub schema: GrafanaSchema,
    pub data: GrafanaData,
}

/// The frames of one Grafana query result.
#[derive(Debug)]
pub struct GrafanaResult {
    pub frames: Vec<GrafanaFrame>,
}

impl View for GrafanaResult {
    type V = GrafanaResult;

    open spec fn view(&self) -> GrafanaResult {
        *self
    }
}

/// A Grafana `/api/ds/query` response: its results by name, kept in name order,
/// each name once.
#[derive(Debug)]
pub struct GrafanaResponse {
    pub results: StrMap<GrafanaResult>,
}

/// The name under which a column's values are kept: the field's name, or
/// `field_<column>` when it has none or an empty one.
pub open spec fn column_name(field: GrafanaField, column: nat) -> Seq<char> {
    match field.name {
        Some(n) => if n@.len() > 0 {
            n@
        } else {
            "field_"@ + decimal(column)
        },
        None => "field_"@ + decimal(column),
    }
}

/// The value in a frame's cell, when there is one and it is not `null`.
pub open spec fn cell(frame: GrafanaFrame, column: int, row: int) -> Option<Json> {
    if 0 <= column < frame.data.values@.len() && 0 <= row < frame.data.values@[column]@.len() {
        let v = frame.data.values@[column]@[row]@;
        if v is Null {
            None
        } else {
            Some(v)
        }
    } else {
        None
    }
}

/// The entry of one row, from the first `columns` fields of the schema; a later
/// field of the same name replaces an earlier one.
pub open spec fn row_entry(frame: GrafanaFrame, row: int, columns: nat) -> Map<Seq<char>, Json>
    decreases columns,
{
    if columns == 0 {
        Map::empty()
    } else {
        let c = (columns - 1) as nat;
        put(row_entry(frame, row, c), column_name(frame.schema.fields@[c as int], c), cell(frame, c as int, row))
    }
}

/// The length of the longest of the first `k` columns.
pub open spec fn longest(values: Seq<Vec<JsonValue>>, k: nat) -> nat
    decreases k,
{
    if k == 0 {
        0
    } else {
        let rest = longest(values, (k - 1) as nat);
        let here = values[k - 1]@.len();
        if here > rest {
            here
        } else {
            rest
        }
    }
}

/// The number of rows of a frame: the length of its longest column.
pub open spec fn row_count(frame: GrafanaFrame) -> nat {
    longest(frame.data.values@, frame.data.values@.len())
}

/// The entries of the first `rows` rows of a frame, leaving out rows without a value.
pub open spec fn frame_entries(frame: GrafanaFrame, rows: nat) -> Seq<Map<Seq<char>, Json>>
    decreases rows,
{
    if rows == 0 {
        Seq::empty()
    } else {
        let r = (rows - 1) as nat;
        let rest = frame_entries(frame, r);
        let e = row_entry(frame, r as int, frame.schema.fields@.len());
        if e == Map::<Seq<char>, Json>::empty() {
            rest
        } else {
            rest.push(e)
        }
    }
}

/// The entries of frames, frame after frame.
pub open spec fn frames_entries(frames: Seq<GrafanaFrame>) -> Seq<Map<Seq<char>, Json>>
    decreases frames.len(),
{
    if frames.len() == 0 {
        Seq::empty()
    } else {
        frames_entries(frames.drop_last()) + frame_entries(frames.last(), row_count(frames.last()))
    }
}

/// The entries of a response's results, result after result.
pub open spec fn results_entries(results: Seq<(Seq<char>, GrafanaResult)>) -> Seq<Map<Seq<char>, Json>>
    decreases results.len(),
{
    if results.len() == 0 {
        Seq::empty()
    } else {
        results_entries(results.drop_last()) + frames_entries(results.last().1.frames@)
    }
}

/// The number of rows of a frame.
fn frame_rows(frame: &GrafanaFrame) -> (r: usize)
    ensures
        r == row_count(*frame),
{
    let values = &frame.data.values;
    let mut best: usize = 0;
    let mut k: usize = 0;
    while k < values.len()
        invariant
            k <= values@.len(),
            best == longest(values@, k as nat),
        decreases values@.len() - k,
    {
        if values[k].len() > best {
            best = values[k].len();
        }
        k = k + 1;
    }
    best
}

/// The name of column `c` of a frame.
fn name_of(field: &GrafanaField, c: usize) -> (r: String)
    ensures
        r@ == column_name(*field, c as nat),
{
    match &field.name {
        Some(n) => {
            if !n.as_str().is_empty() {
                return n.clone();
            }
        },
        None => {},
    }
    let d = decimal_string(c);
    concat("field_", d.as_str())
}

/// The entry of row `row` of a frame.
fn frame_row(frame: &GrafanaFrame, row: usize) -> (r: Entry)
    ensures
        r.as_map() == row_entry(*frame, row as int, frame.schema.fields@.len()),
{
    let fields = &frame.schema.fields;
    let values = &frame.data.values;
    let mut entry: Entry = StrMap::new();
    proof {
        lemma_to_map_empty(entry@);
    }
    let mut c: usize = 0;
    while c < fields.len()
        invariant
            c <= fields@.len(),
            *fields == frame.schema.fields,
            *values == frame.data.values,
            entry.as_map() == row_entry(*frame, row as int, c as nat),
        decreases fields@.len() - c,
    {
        let name = name_of(&fields[c], c);
        if c < values.len() && row < values[c].len() && !values[c][row].is_null() {
            entry.insert(name, values[c][row].deep_clone());
        }
        c = c + 1;
    }
    entry
}

/// Appends the entries of a frame to `out`.
fn push_frame_entries(frame: &GrafanaFrame, out: &mut Vec<Entry>)
    ensures
        final(out)@.map_values(|e: Entry| e.as_map()) == old(out)@.map_values(|e: Entry| e.as_map()) + frame_entries(
            *frame,
            row_count(*frame),
        ),
{
    let rows = frame_rows(frame);
    let ghost start = out@.map_values(|e: Entry| e.as_map());
    let mut r: usize = 0;
    assert(start + frame_entries(*frame, 0) =~= start);
    while r < rows
        invariant
            r <= rows,
            rows == row_count(*frame),
            out@.map_values(|e: Entry| e.as_map()) == start + frame_entries(*frame, r as nat),
        decreases rows - r,
    {
        let entry = frame_row(frame, r);
        proof {
            lemma_to_map_empty(entry@);
        }
        if !entry.is_empty() {
            let ghost before = out@;
            out.push(entry);
            assert(out@.map_values(|e: Entry| e.as_map()) =~= before.map_values(|e: Entry| e.as_map()).push(
                entry.as_map(),
            ));
            assert(start + frame_entries(*frame, (r + 1) as nat) =~= (start + frame_entries(*frame, r as nat)).push(
                entry.as_map(),
            ));
        }
        r = r + 1;
    }
}

/// The log entries of a Grafana response: for every frame of every result, in the
/// results' name order, one per row that has a value, keyed by column name.
pub fn extract_entries(response: &GrafanaResponse) -> (r: Vec<Entry>)
    ensures
        r@.map_values(|e: Entry| e.as_map()) == results_entries(response.results@),
        keys_sorted(response.results@),
{
    let results = &response.results;
    let mut out: Vec<Entry> = Vec::new();
    let mut i: usize = 0;
    assert(out@.map_values(|e: Entry| e.as_map()) =~= results_entries(results@.take(0)));
    let n = results.len();
    while i < n
        invariant
            n == results@.len(),
            i <= results@.len(),
            out@.map_values(|e: Entry| e.as_map()) == results_entries(results@.take(i as int)),
        decreases results@.len() - i,
    {
        let frames = &results.value_at(i).frames;
        let ghost base = out@.map_values(|e: Entry| e.as_map());
        let mut j: usize = 0;
        assert(base + frames_entries(frames@.take(0)) =~= base);
        while j < frames.len()
            invariant
                j <= frames@.len(),
                out@.map_values(|e: Entry| e.as_map()) == base + frames_entries(frames@.take(j as int)),
            decreases frames@.len() - j,
        {
            push_frame_entries(&frames[j], &mut out);
            assert(frames@.take(j + 1).drop_last() =~= frames@.take(j as int));
            assert(base + frames_entries(frames@.take(j + 1)) =~= base + frames_entries(frames@.take(j as int))
                + frame_entries(frames@[j as int], row_count(frames@[j as int])));
            j = j + 1;
        }
        assert(frames@.take(frames@.len() as int) =~= frames@);
        assert(results@.take(i + 1).drop_last() =~= results@.take(i as int));
        i = i + 1;
    }
    assert(results@.take(results@.len() as int) =~= results@);
    out
}

} // verus!

verus! {

/// The query model sent to Grafana: the LogsQL query as `expr`, exactly as given,
/// and a configured scope filter separately as `extraFilters`.
pub open spec fn grafana_query_model(
    datasource_uid: Seq<char>,
    query: Seq<char>,
    scope_filter: Option<Seq<char>>,
    limit: nat,
) -> Json {
    let head = seq![
        ("datasource"@, Json::Object(seq![("uid"@, Json::Str(datasource_uid))])),
        ("expr"@, Json::Str(query)),
    ];
    let head = match scope_filter {
        Some(f) => head.push(("extraFilters"@, Json::Str(f))),
        None => head,
    };
    Json::Object(
        head + seq![
            ("maxLines"@, Json::Number(decimal(limit))),
            ("queryType"@, Json::Str("range"@)),
            ("refId"@, Json::Str("A"@)),
        ],
    )
}

/// The body of a Grafana `/api/ds/query` request.
pub open spec fn grafana_body(
    datasource_uid: Seq<char>,
    query: Seq<char>,
    scope_filter: Option<Seq<char>>,
    limit: nat,
    from: Seq<char>,
    to: Seq<char>,
) -> Json {
    Json::Object(
        seq![
            ("from"@, Json::Str(from)),
            ("queries"@, Json::Array(seq![grafana_query_model(datasource_uid, query, scope_filter, limit)])),
            ("to"@, Json::Str(to)),
        ],
    )
}

/// The Grafana endpoint under a Grafana URL.
pub open spec fn grafana_endpoint(url: Seq<char>) -> Seq<char> {
    trim_end_char(url, '/') + "/api/ds/query"@
}

/// The request that asks Grafana for at most `limit` lines of a LogsQL query in a
/// time window, authorized by a bearer token.
pub fn grafana_request(
    grafana_url: &str,
    datasource_uid: &str,
    token: &str,
    query: &str,
    scope_filter: Option<&str>,
    time_range: &TimeRange,
    limit: usize,
) -> (r: HttpRequest)
    ensures
        r@ == (HttpRequestView {
            url: grafana_endpoint(grafana_url@),
            credential: CredentialView::Bearer(token@),
            body: grafana_body(
                datasource_uid@,
                query@,
                opt_str_view(scope_filter),
                limit as nat,
                time_range.spec_from(),
                time_range.spec_to(),
            ),
        }),
{
    let mut endpoint = trim_end_matches(grafana_url, '/');
    endpoint.append("/api/ds/query");
    let mut model: Vec<(String, JsonValue)> = Vec::new();
    push_member(&mut model, "datasource", json_object1("uid", json_str(datasource_uid)));
    push_member(&mut model, "expr", json_str(query));
    match scope_filter {
        Some(f) => push_member(&mut model, "extraFilters", json_str(f)),
        None => {},
    }
    push_member(&mut model, "maxLines", json_usize(limit));
    push_member(&mut model, "queryType", json_str("range"));
    push_member(&mut model, "refId", json_str("A"));
    let mut queries: Vec<JsonValue> = Vec::new();
    queries.push(JsonValue::Object(model));
    proof {
        lemma_json_seq_view(queries@);
    }
    let mut body: Vec<(String, JsonValue)> = Vec::new();
    push_member(&mut body, "from", json_str(time_range.from()));
    push_member(&mut body, "queries", JsonValue::Array(queries));
    push_member(&mut body, "to", json_str(time_range.to()));
    let r = HttpRequest { url: endpoint, credential: Credential::Bearer(owned(token)), body: JsonValue::Object(body) };
    assert(json_obj_view(model@) =~= match grafana_query_model(datasource_uid@, query@, opt_str_view(scope_filter), limit as nat) {
        Json::Object(m) => m,
        _ => Seq::empty(),
    });
    assert(json_seq_view(queries@) =~= seq![grafana_query_model(datasource_uid@, query@, opt_str_view(scope_filter), limit as nat)]);
    assert(json_obj_view(body@) =~= match grafana_body(
        datasource_uid@,
        query@,
        opt_str_view(scope_filter),
        limit as nat,
        time_range.spec_from(),
        time_range.spec_to(),
    ) {
        Json::Object(m) => m,
        _ => Seq::empty(),
    });
    assert(r.body@ == grafana_body(
        datasource_uid@,
        query@,
        opt_str_view(scope_filter),
        limit as nat,
        time_range.spec_from(),
        time_range.spec_to(),
    ));
    r
}

} // verus!
