use vstd::prelude::*;
use vstd::string::*;

use crate::http::{json_str, json_usize, push_member, Credential, CredentialView, HttpRequest, HttpRequestView};
use crate::json::{json_obj_view, copy_field, json_get, json_seq_view, lemma_json_seq_view, lemma_to_map_empty, non_null, put, Entry, Json, JsonValue};
use crate::strmap::StrMap;
use crate::text::{concat, decimal, owned};
use crate::time_range::{chrono_rfc3339_secs, format_rfc3339_secs, Timestamp};

verus! {

/// Which Railway logs a project may see.
#[derive(Clone, Copy, Debug, PartialEq, Eq, Structural)]
pub enum RailwayScope {
    /// One service, named by the project's `service_id` (the default).
    Service,
    /// Every service in the environment.
    Environment,
}

/// How the Railway token is presented.
#[derive(Clone, Copy, Debug, PartialEq, Eq, Structural)]
pub enum RailwayAuth {
    /// A project access token, sent in the `Project-Access-Token` header.
    ProjectToken,
    /// An account or workspace token, sent as a bearer token.
    Bearer,
}

/// A scope that does not agree with whether `service_id` is configured.
#[derive(Clone, Copy, Debug, PartialEq, Eq, Structural)]
pub enum ScopeError {
    ServiceScopeRequiresServiceId,
    EnvironmentScopeForbidsServiceId,
}

pub open spec fn scope_error_message(e: ScopeError) -> Seq<char> {
    match e {
        ScopeError::ServiceScopeRequiresServiceId => "Railway service scope requires service_id"@,
        ScopeError::EnvironmentScopeForbidsServiceId => "Railway environment scope must not configure service_id"@,
    }
}

impl ScopeError {
    /// The text of the error.
    pub fn message(&self) -> (r: String)
        ensures
            r@ == scope_error_message(*self),
    {
        match self {
            ScopeError::ServiceScopeRequiresServiceId => {
                let r = owned("Railway service scope requires service_id");
                proof {
                    reveal_strlit("Railway service scope requires service_id");
                }
                r
            },
            ScopeError::EnvironmentScopeForbidsServiceId => {
                let r = owned("Railway environment scope must not configure service_id");
                proof {
                    reveal_strlit("Railway environment scope must not configure service_id");
                }
                r
            },
        }
    }
}

/// The filter sent to Railway: a service scope adds `@service:<id>` in front of the
/// caller's filter, which it keeps unchanged inside parentheses; an environment
/// scope sends the caller's filter as it is.
pub open spec fn scoped_filter(
    scope: RailwayScope,
    service_id: Option<Seq<char>>,
    filter: Seq<char>,
) -> Result<Seq<char>, ScopeError> {
    match (scope, service_id) {
        (RailwayScope::Service, Some(id)) => if filter.len() == 0 {
            Ok("@service:"@ + id)
        } else {
            Ok("@service:"@ + id + " AND ("@ + filter + ")"@)
        },
        (RailwayScope::Service, None) => Err(ScopeError::ServiceScopeRequiresServiceId),
        (RailwayScope::Environment, None) => Ok(filter),
        (RailwayScope::Environment, Some(_)) => Err(ScopeError::EnvironmentScopeForbidsServiceId),
    }
}

pub open spec fn opt_str_view(s: Option<&str>) -> Option<Seq<char>> {
    match s {
        Some(s) => Some(s@),
        None => None,
    }
}

impl RailwayScope {
    /// The scope's check that `service_id` is configured exactly when it is needed.
    pub fn validate(self, has_service_id: bool) -> (r: Result<(), ScopeError>)
        ensures
            r == (match (self, has_service_id) {
                (RailwayScope::Service, false) => Err(ScopeError::ServiceScopeRequiresServiceId),
                (RailwayScope::Environment, true) => Err(ScopeError::EnvironmentScopeForbidsServiceId),
                _ => Ok(()),
            }),
    {
        match (self, has_service_id) {
            (RailwayScope::Service, false) => Err(ScopeError::ServiceScopeRequiresServiceId),
            (RailwayScope::Environment, true) => Err(ScopeError::EnvironmentScopeForbidsServiceId),
            _ => Ok(()),
        }
    }

    /// Combines the scope with the caller's backend-native filter.
    pub fn filter(self, service_id: Option<&str>, filter: &str) -> (r: Result<String, ScopeError>)
        ensures
            match (r, scoped_filter(self, opt_str_view(service_id), filter@)) {
                (Ok(s), Ok(t)) => s@ == t,
                (Err(e), Err(f)) => e == f,
                _ => false,
            },
    {
        match (self, service_id) {
            (RailwayScope::Service, Some(id)) => {
                let mut out = concat("@service:", id);
                if filter.is_empty() {
                    Ok(out)
                } else {
                    out.append(" AND (");
                    out.append(filter);
                    out.append(")");
                    Ok(out)
                }
            },
            (RailwayScope::Service, None) => Err(ScopeError::ServiceScopeRequiresServiceId),
            (RailwayScope::Environment, None) => Ok(owned(filter)),
            (RailwayScope::Environment, Some(_)) => Err(ScopeError::EnvironmentScopeForbidsServiceId),
        }
    }
}

} // verus!

verus! {

/// The fields kept from one Railway log line: `timestamp`, `message` and `severity`,
/// then `serviceId` and `deploymentId` from its `tags` object; missing and `null`
/// fields are left out.
pub open spec fn railway_entry(line: Json) -> Map<Seq<char>, Json> {
    let m = put(Map::empty(), "timestamp"@, non_null(json_get(line, "timestamp"@)));
    let m = put(m, "message"@, non_null(json_get(line, "message"@)));
    let m = put(m, "severity"@, non_null(json_get(line, "severity"@)));
    match json_get(line, "tags"@) {
        Some(tags) => if tags is Object {
            let m = put(m, "serviceId"@, non_null(json_get(tags, "serviceId"@)));
            put(m, "deploymentId"@, non_null(json_get(tags, "deploymentId"@)))
        } else {
            m
        },
        None => m,
    }
}

/// The entries of Railway log lines: one per object line, unless it has none of the
/// kept fields; other lines are skipped.
pub open spec fn railway_entries(lines: Seq<Json>) -> Seq<Map<Seq<char>, Json>>
    decreases lines.len(),
{
    if lines.len() == 0 {
        Seq::empty()
    } else {
        let rest = railway_entries(lines.drop_last());
        let line = lines.last();
        if line is Object && railway_entry(line) != Map::<Seq<char>, Json>::empty() {
            rest.push(railway_entry(line))
        } else {
            rest
        }
    }
}

/// The log lines of a Railway response: the array at `data.environmentLogs`, if
/// there is one.
pub open spec fn railway_lines(response: Json) -> Seq<Json> {
    match json_get(response, "data"@) {
        Some(data) => match json_get(data, "environmentLogs"@) {
            Some(Json::Array(lines)) => lines,
            _ => Seq::empty(),
        },
        None => Seq::empty(),
    }
}

/// The entries of a Railway response, in the order of its log lines.
pub fn extract_entries(response: &JsonValue) -> (r: Vec<Entry>)
    ensures
        r@.map_values(|e: Entry| e.as_map()) == railway_entries(railway_lines(response@)),
{
    let mut out: Vec<Entry> = Vec::new();
    let lines = match response.get("data") {
        Some(data) => match data.get("environmentLogs") {
            Some(logs) => match logs.as_array() {
                Some(lines) => lines,
                None => {
                    assert(railway_entries(Seq::<Json>::empty()) =~= Seq::<Map<Seq<char>, Json>>::empty());
                    assert(out@.map_values(|e: Entry| e.as_map()) =~= Seq::<Map<Seq<char>, Json>>::empty());
                    return out;
                },
            },
            None => {
                assert(out@.map_values(|e: Entry| e.as_map()) =~= Seq::<Map<Seq<char>, Json>>::empty());
                return out;
            },
        },
        None => {
            assert(out@.map_values(|e: Entry| e.as_map()) =~= Seq::<Map<Seq<char>, Json>>::empty());
            return out;
        },
    };
    let ghost all = json_seq_view(lines@);
    proof {
        lemma_json_seq_view(lines@);
    }
    assert(railway_lines(response@) == all);
    let mut i: usize = 0;
    while i < lines.len()
        invariant
            i <= lines@.len(),
            all == json_seq_view(lines@),
            all.len() == lines@.len(),
            forall|j: int| 0 <= j < lines@.len() ==> #[trigger] all[j] == lines@[j]@,
            out@.map_values(|e: Entry| e.as_map()) == railway_entries(all.take(i as int)),
        decreases lines@.len() - i,
    {
        let line = &lines[i];
        assert(all.take(i + 1).drop_last() =~= all.take(i as int));
        assert(all.take(i + 1).last() == line@);
        if line.is_object() {
            let mut entry: Entry = StrMap::new();
            proof {
                lemma_to_map_empty(entry@);
            }
            copy_field(&mut entry, line, "timestamp");
            copy_field(&mut entry, line, "message");
            copy_field(&mut entry, line, "severity");
            match line.get("tags") {
                Some(tags) => {
                    if tags.is_object() {
                        copy_field(&mut entry, tags, "serviceId");
                        copy_field(&mut entry, tags, "deploymentId");
                    }
                },
                None => {},
            }
            assert(entry.as_map() == railway_entry(line@));
            proof {
                lemma_to_map_empty(entry@);
            }
            if !entry.is_empty() {
                let ghost before = out@;
                out.push(entry);
                assert(out@.map_values(|e: Entry| e.as_map()) =~= before.map_values(|e: Entry| e.as_map()).push(
                    railway_entry(line@),
                ));
            }
        }
        i = i + 1;
    }
    assert(all.take(lines@.len() as int) =~= all);
    out
}

} // verus!

verus! {

/// The Railway GraphQL endpoint.
pub const RAILWAY_API_URL: &'static str = "https://backboard.railway.com/graphql/v2";

/// The largest number of entries that may be asked of a backend.
pub const RAILWAY_BEFORE_LIMIT: usize = 101;

/// The GraphQL query for an environment's logs.
pub open spec fn environment_logs_query() -> Seq<char> {
    "query EnvironmentLogs($environmentId: String!, $filter: String, $beforeDate: String!, $anchorDate: String!, $afterDate: String!, $beforeLimit: Int!, $afterLimit: Int!) {\n  environmentLogs(environmentId: $environmentId, filter: $filter, beforeDate: $beforeDate, anchorDate: $anchorDate, afterDate: $afterDate, beforeLimit: $beforeLimit, afterLimit: $afterLimit) {\n    timestamp\n    message\n    severity\n    tags {\n      serviceId\n      deploymentId\n    }\n  }\n}"@
}

/// The body of a Railway request for the logs of an environment between `from` and
/// `to`: at most 101 lines from `from` up to `to`, none after it.
pub open spec fn railway_body(environment_id: Seq<char>, filter: Seq<char>, from: Timestamp, to: Timestamp) -> Json {
    let end = chrono_rfc3339_secs(to.secs, to.nanos);
    let start = chrono_rfc3339_secs(from.secs, from.nanos);
    Json::Object(
        seq![
            ("query"@, Json::Str(environment_logs_query())),
            ("variables"@, Json::Object(
                seq![
                    ("afterDate"@, Json::Str(end)),
                    ("afterLimit"@, Json::Number(decimal(0))),
                    ("anchorDate"@, Json::Str(end)),
                    ("beforeDate"@, Json::Str(start)),
                    ("beforeLimit"@, Json::Number(decimal(RAILWAY_BEFORE_LIMIT as nat))),
                    ("environmentId"@, Json::Str(environment_id)),
                    ("filter"@, Json::Str(filter)),
                ],
            )),
        ],
    )
}

/// How a Railway token is presented.
pub open spec fn railway_credential(auth: RailwayAuth, token: Seq<char>) -> CredentialView {
    match auth {
        RailwayAuth::ProjectToken => CredentialView::ProjectAccessToken(token),
        RailwayAuth::Bearer => CredentialView::Bearer(token),
    }
}

/// The request for the logs of a Railway environment that match `filter`, in the
/// window from `from` to `to`.
pub fn railway_request(
    api_url: &str,
    token: &str,
    auth: RailwayAuth,
    environment_id: &str,
    filter: &str,
    from: Timestamp,
    to: Timestamp,
) -> (r: HttpRequest)
    requires
        from.is_instant(),
        to.is_instant(),
    ensures
        r@ == (HttpRequestView {
            url: api_url@,
            credential: railway_credential(auth, token@),
            body: railway_body(environment_id@, filter@, from, to),
        }),
{
    let start_date = format_rfc3339_secs(from);
    let end_date = format_rfc3339_secs(to);
    let mut variables: Vec<(String, JsonValue)> = Vec::new();
    push_member(&mut variables, "afterDate", JsonValue::Str(end_date.clone()));
    push_member(&mut variables, "afterLimit", json_usize(0));
    push_member(&mut variables, "anchorDate", JsonValue::Str(end_date));
    push_member(&mut variables, "beforeDate", JsonValue::Str(start_date));
    push_member(&mut variables, "beforeLimit", json_usize(RAILWAY_BEFORE_LIMIT));
    push_member(&mut variables, "environmentId", json_str(environment_id));
    push_member(&mut variables, "filter", json_str(filter));
    let mut body: Vec<(String, JsonValue)> = Vec::new();
    push_member(
        &mut body,
        "query",
        json_str(
            "query EnvironmentLogs($environmentId: String!, $filter: String, $beforeDate: String!, $anchorDate: String!, $afterDate: String!, $beforeLimit: Int!, $afterLimit: Int!) {\n  environmentLogs(environmentId: $environmentId, filter: $filter, beforeDate: $beforeDate, anchorDate: $anchorDate, afterDate: $afterDate, beforeLimit: $beforeLimit, afterLimit: $afterLimit) {\n    timestamp\n    message\n    severity\n    tags {\n      serviceId\n      deploymentId\n    }\n  }\n}",
        ),
    );
    push_member(&mut body, "variables", JsonValue::Object(variables));
    let credential = match auth {
        RailwayAuth::ProjectToken => Credential::ProjectAccessToken(owned(token)),
        RailwayAuth::Bearer => Credential::Bearer(owned(token)),
    };
    let r = HttpRequest { url: owned(api_url), credential, body: JsonValue::Object(body) };
    assert(json_obj_view(variables@) =~= match railway_body(environment_id@, filter@, from, to) {
        Json::Object(m) => match m[1].1 {
            Json::Object(v) => v,
            _ => Seq::empty(),
        },
        _ => Seq::empty(),
    });
    assert(json_obj_view(body@) =~= match railway_body(environment_id@, filter@, from, to) {
        Json::Object(m) => m,
        _ => Seq::empty(),
    });
    r
}

/// The GraphQL errors of a Railway response: its `errors` member, when that is a
/// non-empty array.
pub open spec fn graphql_errors(response: Json) -> Option<Json> {
    match json_get(response, "errors"@) {
        Some(Json::Array(errors)) => if errors.len() > 0 {
            Some(Json::Array(errors))
        } else {
            None
        },
        _ => None,
    }
}

/// The GraphQL errors that a Railway response reports, if it reports any.
pub fn find_graphql_errors(response: &JsonValue) -> (r: Option<&JsonValue>)
    ensures
        match r {
            Some(e) => graphql_errors(response@) == Some(e@),
            None => graphql_errors(response@) is None,
        },
{
    match response.get("errors") {
        Some(errors) => match errors.as_array() {
            Some(items) => {
                proof {
                    lemma_json_seq_view(items@);
                }
                if items.len() > 0 {
                    Some(errors)
                } else {
                    None
                }
            },
            None => None,
        },
        None => None,
    }
}

} // verus!
