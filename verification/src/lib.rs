//! Bounded queries of production logs from named VictoriaLogs (through Grafana) and
//! Railway projects.

use vstd::prelude::*;
use vstd::string::*;

pub mod config_discovery;
pub mod config_value;
pub mod grafana;
pub mod http;
pub mod json;
pub mod laws;
pub mod railway;
pub mod strmap;
pub mod text;
pub mod time_range;

use crate::config_value::{
    resolution, result_view, source_problem, EnvLookup, OpError, ResolveError, ResolveErrorView, StringValue,
    StringValueView,
};
use crate::railway::{scope_error_message, RailwayAuth, RailwayScope, ScopeError};
use crate::strmap::{keys_sorted, str_less, StrMap};
use crate::text::{debug_quote, debug_quoted, owned};

pub use crate::time_range::TimeRange;

verus! {

/// The largest number of log entries a single query may return.
pub const MAX_RESULT_LIMIT: usize = 100;

// ---------------------------------------------------------------------------
// Backends
// ---------------------------------------------------------------------------

/// A configured project: where its logs are and how to reach them.
#[derive(Debug, PartialEq, Eq)]
pub enum Backend {
    VictoriaLogs {
        url: StringValue,
        datasource_uid: StringValue,
        token: StringValue,
        scope_filter: Option<StringValue>,
    },
    Railway {
        environment_id: StringValue,
        scope: RailwayScope,
        service_id: Option<StringValue>,
        token: StringValue,
        auth: RailwayAuth,
    },
}

/// `Backend` with its strings as character sequences.
pub enum BackendView {
    VictoriaLogs {
        url: StringValueView,
        datasource_uid: StringValueView,
        token: StringValueView,
        scope_filter: Option<StringValueView>,
    },
    Railway {
        environment_id: StringValueView,
        scope: RailwayScope,
        service_id: Option<StringValueView>,
        token: StringValueView,
        auth: RailwayAuth,
    },
}

pub open spec fn opt_value_view(v: Option<StringValue>) -> Option<StringValueView> {
    match v {
        Some(v) => Some(v@),
        None => None,
    }
}

impl View for Backend {
    type V = BackendView;

    open spec fn view(&self) -> BackendView {
        match self {
            Backend::VictoriaLogs { url, datasource_uid, token, scope_filter } => BackendView::VictoriaLogs {
                url: url@,
                datasource_uid: datasource_uid@,
                token: token@,
                scope_filter: opt_value_view(*scope_filter),
            },
            Backend::Railway { environment_id, scope, service_id, token, auth } => BackendView::Railway {
                environment_id: environment_id@,
                scope: *scope,
                service_id: opt_value_view(*service_id),
                token: token@,
                auth: *auth,
            },
        }
    }
}

/// The name of a backend's kind, as it appears in the configuration.
pub open spec fn backend_kind_name(b: BackendView) -> Seq<char> {
    match b {
        BackendView::VictoriaLogs { .. } => "victoria_logs"@,
        BackendView::Railway { .. } => "railway"@,
    }
}

impl Backend {
    /// The name of the backend's kind.
    pub fn name(&self) -> (r: &'static str)
        ensures
            r@ == backend_kind_name(self@),
    {
        match self {
            Backend::VictoriaLogs { .. } => "victoria_logs",
            Backend::Railway { .. } => "railway",
        }
    }
}

/// A string-valued field of a backend.
#[derive(Clone, Copy, Debug, PartialEq, Eq, Structural)]
pub enum Field {
    Url,
    DatasourceUid,
    Token,
    ScopeFilter,
    EnvironmentId,
    ServiceId,
}

/// The name of a field in the configuration.
pub open spec fn field_name(f: Field) -> Seq<char> {
    match f {
        Field::Url => "url"@,
        Field::DatasourceUid => "datasource_uid"@,
        Field::Token => "token"@,
        Field::ScopeFilter => "scope_filter"@,
        Field::EnvironmentId => "environment_id"@,
        Field::ServiceId => "service_id"@,
    }
}

impl Field {
    /// The name of the field in the configuration.
    pub fn name(&self) -> (r: &'static str)
        ensures
            r@ == field_name(*self),
    {
        match self {
            Field::Url => "url",
            Field::DatasourceUid => "datasource_uid",
            Field::Token => "token",
            Field::ScopeFilter => "scope_filter",
            Field::EnvironmentId => "environment_id",
            Field::ServiceId => "service_id",
        }
    }
}

// ---------------------------------------------------------------------------
// Validation
// ---------------------------------------------------------------------------

/// What is wrong with a backend's configuration.
#[derive(Debug, PartialEq, Eq)]
pub enum BackendProblem {
    /// A field's value is malformed.
    Field { field: Field, error: ResolveError },
    /// The Railway scope does not agree with `service_id`.
    Scope(ScopeError),
}

/// `BackendProblem` as mathematical values.
pub enum BackendProblemView {
    Field { field: Field, error: ResolveErrorView },
    Scope(ScopeError),
}

impl View for BackendProblem {
    type V = BackendProblemView;

    open spec fn view(&self) -> BackendProblemView {
        match self {
            BackendProblem::Field { field, error } => BackendProblemView::Field { field: *field, error: error@ },
            BackendProblem::Scope(e) => BackendProblemView::Scope(*e),
        }
    }
}

/// A project whose configuration is invalid.
#[derive(Debug, PartialEq, Eq)]
pub struct ConfigError {
    pub project: String,
    pub problem: BackendProblem,
}

/// The structural problem of a value, if it has one.
pub open spec fn value_problem(v: StringValueView) -> Option<ResolveErrorView> {
    match v {
        StringValueView::Literal(_) => None,
        StringValueView::Source(s) => source_problem(s),
    }
}

/// The problem of a field, if its value has one.
pub open spec fn field_problem(f: Field, v: StringValueView) -> Option<BackendProblemView> {
    match value_problem(v) {
        Some(e) => Some(BackendProblemView::Field { field: f, error: e }),
        None => None,
    }
}

/// The problem of an optional field, if it is there and has one.
pub open spec fn opt_field_problem(f: Field, v: Option<StringValueView>) -> Option<BackendProblemView> {
    match v {
        Some(v) => field_problem(f, v),
        None => None,
    }
}

/// The first of two problems.
pub open spec fn first_problem(a: Option<BackendProblemView>, b: Option<BackendProblemView>) -> Option<
    BackendProblemView,
> {
    if a is Some {
        a
    } else {
        b
    }
}

/// The first problem of a backend, checked field by field in the order of its
/// definition; for Railway, the scope is checked first.
pub open spec fn backend_problem(b: BackendView) -> Option<BackendProblemView> {
    match b {
        BackendView::VictoriaLogs { url, datasource_uid, token, scope_filter } => first_problem(
            field_problem(Field::Url, url),
            first_problem(
                field_problem(Field::DatasourceUid, datasource_uid),
                first_problem(field_problem(Field::Token, token), opt_field_problem(Field::ScopeFilter, scope_filter)),
            ),
        ),
        BackendView::Railway { environment_id, scope, service_id, token, .. } => {
            let scope_problem = match (scope, service_id) {
                (RailwayScope::Service, None) => Some(BackendProblemView::Scope(ScopeError::ServiceScopeRequiresServiceId)),
                (RailwayScope::Environment, Some(_)) => Some(
                    BackendProblemView::Scope(ScopeError::EnvironmentScopeForbidsServiceId),
                ),
                _ => None,
            };
            first_problem(
                scope_problem,
                first_problem(
                    field_problem(Field::EnvironmentId, environment_id),
                    first_problem(opt_field_problem(Field::ServiceId, service_id), field_problem(Field::Token, token)),
                ),
            )
        },
    }
}

/// Checks one field.
fn check_field(field: Field, v: &StringValue) -> (r: Result<(), BackendProblem>)
    ensures
        match (r, field_problem(field, v@)) {
            (Ok(_), None) => true,
            (Err(p), Some(q)) => p@ == q,
            _ => false,
        },
{
    match v.validate() {
        Ok(()) => Ok(()),
        Err(e) => Err(BackendProblem::Field { field, error: e }),
    }
}

impl Backend {
    /// Checks the configuration of the backend without resolving any value.
    pub fn validate(&self) -> (r: Result<(), BackendProblem>)
        ensures
            match (r, backend_problem(self@)) {
                (Ok(_), None) => true,
                (Err(p), Some(q)) => p@ == q,
                _ => false,
            },
    {
        match self {
            Backend::VictoriaLogs { url, datasource_uid, token, scope_filter } => {
                check_field(Field::Url, url)?;
                check_field(Field::DatasourceUid, datasource_uid)?;
                check_field(Field::Token, token)?;
                match scope_filter {
                    Some(f) => check_field(Field::ScopeFilter, f),
                    None => Ok(()),
                }
            },
            Backend::Railway { environment_id, scope, service_id, token, .. } => {
                match scope.validate(service_id.is_some()) {
                    Ok(()) => {},
                    Err(e) => return Err(BackendProblem::Scope(e)),
                }
                check_field(Field::EnvironmentId, environment_id)?;
                match service_id {
                    Some(s) => check_field(Field::ServiceId, s)?,
                    None => {},
                }
                check_field(Field::Token, token)
            },
        }
    }
}

// ---------------------------------------------------------------------------
// Configuration
// ---------------------------------------------------------------------------

/// The configured projects, by name.
#[derive(Debug)]
pub struct Config {
    projects: StrMap<Backend>,
}

impl View for Config {
    type V = Seq<(Seq<char>, BackendView)>;

    closed spec fn view(&self) -> Seq<(Seq<char>, BackendView)> {
        self.projects@
    }
}

/// The first project, in name order, whose configuration has a problem, with that
/// problem.
pub open spec fn config_problem(projects: Seq<(Seq<char>, BackendView)>) -> Option<(Seq<char>, BackendProblemView)>
    decreases projects.len(),
{
    if projects.len() == 0 {
        None
    } else {
        match backend_problem(projects[0].1) {
            Some(p) => Some((projects[0].0, p)),
            None => config_problem(projects.drop_first()),
        }
    }
}

impl Config {
    /// The projects as a map from name to backend.
    pub open spec fn as_map(&self) -> Map<Seq<char>, BackendView> {
        crate::strmap::to_map(self@)
    }

    /// A configuration without projects.
    pub fn new() -> (r: Self)
        ensures
            r@ == Seq::<(Seq<char>, BackendView)>::empty(),
    {
        Config { projects: StrMap::new() }
    }

    /// Adds a project, replacing one of the same name.
    pub fn add_project(&mut self, name: String, backend: Backend)
        ensures
            final(self).as_map() == old(self).as_map().insert(name@, backend@),
            keys_sorted(final(self)@),
    {
        self.projects.insert(name, backend);
    }

    /// The backend of a project.
    pub fn backend(&self, name: &str) -> (r: Option<&Backend>)
        ensures
            match r {
                Some(b) => self.as_map().contains_key(name@) && self.as_map()[name@] == b@,
                None => !self.as_map().contains_key(name@),
            },
    {
        self.projects.get(name)
    }

    /// The projects with the names of their backends' kinds, in name order.
    pub fn projects(&self) -> (r: Vec<(&str, &'static str)>)
        ensures
            r@.len() == self@.len(),
            forall|i: int| 0 <= i < r@.len() ==> (#[trigger] r@[i]).0@ == self@[i].0 && r@[i].1@ == backend_kind_name(
                self@[i].1,
            ),
            forall|i: int, j: int| 0 <= i < j < r@.len() ==> str_less((#[trigger] r@[i]).0@, (#[trigger] r@[j]).0@),
    {
        let n = self.projects.len();
        let mut r: Vec<(&str, &'static str)> = Vec::new();
        let mut i: usize = 0;
        while i < n
            invariant
                n == self@.len(),
                keys_sorted(self@),
                i <= n,
                r@.len() == i,
                forall|k: int| 0 <= k < i ==> (#[trigger] r@[k]).0@ == self@[k].0 && r@[k].1@ == backend_kind_name(
                    self@[k].1,
                ),
            decreases n - i,
        {
            let name = self.projects.key_at(i);
            let backend = self.projects.value_at(i);
            r.push((name.as_str(), backend.name()));
            i = i + 1;
        }
        r
    }

    /// Checks every project's configuration, in name order, and reports the first
    /// project with a problem.
    pub fn validate(&self) -> (r: Result<(), ConfigError>)
        ensures
            match (r, config_problem(self@)) {
                (Ok(_), None) => true,
                (Err(e), Some((name, p))) => e.project@ == name && e.problem@ == p,
                _ => false,
            },
    {
        let n = self.projects.len();
        let mut i: usize = 0;
        assert(self@.skip(0) =~= self@);
        while i < n
            invariant
                n == self@.len(),
                i <= n,
                config_problem(self@) == config_problem(self@.skip(i as int)),
            decreases n - i,
        {
            let backend = self.projects.value_at(i);
            assert(self@.skip(i as int)[0] == self@[i as int]);
            match backend.validate() {
                Ok(()) => {},
                Err(p) => return Err(ConfigError { project: self.projects.key_at(i).clone(), problem: p }),
            }
            assert(self@.skip(i as int).drop_first() =~= self@.skip(i + 1));
            i = i + 1;
        }
        Ok(())
    }
}

} // verus!

verus! {

// ---------------------------------------------------------------------------
// Queries
// ---------------------------------------------------------------------------

/// The kind of a backend.
#[derive(Clone, Copy, Debug, PartialEq, Eq, Structural)]
pub enum BackendKind {
    VictoriaLogs,
    Railway,
}

pub open spec fn kind_of(b: BackendView) -> BackendKind {
    match b {
        BackendView::VictoriaLogs { .. } => BackendKind::VictoriaLogs,
        BackendView::Railway { .. } => BackendKind::Railway,
    }
}

/// Why a query failed.
#[derive(Debug, PartialEq, Eq)]
pub enum QueryError {
    LimitOutOfRange,
    UnknownProject { name: String },
    Resolve { field: Field, error: ResolveError },
    EmptyToken,
    Scope(ScopeError),
    Range(crate::time_range::RangeError),
    Status { kind: BackendKind, status: u16, detail: String },
    NotJson { kind: BackendKind },
    GraphQl { errors: crate::json::JsonValue },
}

/// `QueryError` as mathematical values.
pub enum QueryErrorView {
    LimitOutOfRange,
    UnknownProject { name: Seq<char> },
    Resolve { field: Field, error: ResolveErrorView },
    EmptyToken,
    Scope(ScopeError),
    Range(crate::time_range::RangeErrorView),
    Status { kind: BackendKind, status: u16, detail: Seq<char> },
    NotJson { kind: BackendKind },
    GraphQl { errors: crate::json::Json },
}

impl View for QueryError {
    type V = QueryErrorView;

    open spec fn view(&self) -> QueryErrorView {
        match self {
            QueryError::LimitOutOfRange => QueryErrorView::LimitOutOfRange,
            QueryError::UnknownProject { name } => QueryErrorView::UnknownProject { name: name@ },
            QueryError::Resolve { field, error } => QueryErrorView::Resolve { field: *field, error: error@ },
            QueryError::EmptyToken => QueryErrorView::EmptyToken,
            QueryError::Scope(e) => QueryErrorView::Scope(*e),
            QueryError::Range(e) => QueryErrorView::Range(e@),
            QueryError::NotJson { kind } => QueryErrorView::NotJson { kind: *kind },
            QueryError::Status { kind, status, detail } => QueryErrorView::Status {
                kind: *kind,
                status: *status,
                detail: detail@,
            },
            QueryError::GraphQl { errors } => QueryErrorView::GraphQl { errors: errors@ },
        }
    }
}

/// What resolving a token gives: its value, unless resolution fails or the value
/// is empty.
pub open spec fn token_outcome(t: Result<Seq<char>, ResolveErrorView>) -> Result<Seq<char>, QueryErrorView> {
    match t {
        Err(e) => Err(QueryErrorView::Resolve { field: Field::Token, error: e }),
        Ok(s) => if s.len() == 0 {
            Err(QueryErrorView::EmptyToken)
        } else {
            Ok(s)
        },
    }
}

/// Resolves a token, which may not be empty.
pub fn read_token<E: Fn(&str) -> EnvLookup, O: Fn(&str, Option<&str>) -> Result<String, OpError>>(
    value: &StringValue,
    read_env: &E,
    read_op: &O,
) -> (r: Result<String, QueryError>)
    requires
        forall|n: &str| call_requires(*read_env, (n,)),
        forall|a: &str, b: Option<&str>| call_requires(*read_op, (a, b)),
    ensures
        exists|t: Result<Seq<char>, ResolveErrorView>|
            resolution(value@, *read_env, *read_op, t) && result_view(r) == token_outcome(t),
{
    let t = value.resolve_with(read_env, read_op);
    let ghost tv = result_view(t);
    let r = match t {
        Err(e) => Err(QueryError::Resolve { field: Field::Token, error: e }),
        Ok(token) => {
            if token.as_str().is_empty() {
                Err(QueryError::EmptyToken)
            } else {
                Ok(token)
            }
        },
    };
    assert(resolution(value@, *read_env, *read_op, tv) && result_view(r) == token_outcome(tv));
    r
}

/// At most `limit` entries: the last ones when `retain_newest` holds (the backend
/// lists the oldest first), else the first ones.
pub open spec fn bounded<T>(entries: Seq<T>, retain_newest: bool, limit: nat) -> Seq<T> {
    if entries.len() > limit && retain_newest {
        entries.subrange(entries.len() - limit, entries.len() as int)
    } else if entries.len() > limit {
        entries.take(limit as int)
    } else {
        entries
    }
}

/// Cuts a list of entries down to at most `limit`, and tells whether any were cut.
pub fn bound_entries<T>(entries: Vec<T>, retain_newest: bool, limit: usize) -> (r: (Vec<T>, bool))
    ensures
        r.0@ == bounded(entries@, retain_newest, limit as nat),
        r.1 == (entries@.len() > limit),
{
    let mut entries = entries;
    let truncated = entries.len() > limit;
    if truncated && retain_newest {
        let at = entries.len() - limit;
        (entries.split_off(at), truncated)
    } else {
        entries.truncate(limit);
        (entries, truncated)
    }
}

} // verus!

verus! {

pub open spec fn request_result_view(r: Result<crate::http::HttpRequest, QueryError>) -> Result<
    crate::http::HttpRequestView,
    QueryErrorView,
> {
    match r {
        Ok(q) => Ok(q@),
        Err(e) => Err(e@),
    }
}

/// The Grafana request for a VictoriaLogs project, once its values are resolved.
pub open spec fn grafana_request_view(
    url: Seq<char>,
    datasource_uid: Seq<char>,
    token: Seq<char>,
    query: Seq<char>,
    scope_filter: Option<Seq<char>>,
    time_range: TimeRange,
    limit: nat,
) -> crate::http::HttpRequestView {
    crate::http::HttpRequestView {
        url: crate::grafana::grafana_endpoint(url),
        credential: crate::http::CredentialView::Bearer(token),
        body: crate::grafana::grafana_body(
            datasource_uid,
            query,
            scope_filter,
            limit,
            time_range.spec_from(),
            time_range.spec_to(),
        ),
    }
}

/// What preparing a VictoriaLogs query may give: its values are resolved in the
/// order url, datasource_uid, token, scope_filter, and the first failure is the
/// outcome; with all of them, the Grafana request.
pub open spec fn victoria_logs_outcome<
    E: Fn(&str) -> EnvLookup,
    O: Fn(&str, Option<&str>) -> Result<String, OpError>,
>(
    url: StringValueView,
    datasource_uid: StringValueView,
    token: StringValueView,
    scope_filter: Option<StringValueView>,
    query: Seq<char>,
    time_range: TimeRange,
    limit: nat,
    read_env: E,
    read_op: O,
    r: Result<crate::http::HttpRequestView, QueryErrorView>,
) -> bool {
    exists|ru: Result<Seq<char>, ResolveErrorView>|
        resolution(url, read_env, read_op, ru) && match ru {
            Err(e) => r == Err::<crate::http::HttpRequestView, QueryErrorView>(
                QueryErrorView::Resolve { field: Field::Url, error: e },
            ),
            Ok(u) => exists|rd: Result<Seq<char>, ResolveErrorView>|
                resolution(datasource_uid, read_env, read_op, rd) && match rd {
                    Err(e) => r == Err::<crate::http::HttpRequestView, QueryErrorView>(
                        QueryErrorView::Resolve { field: Field::DatasourceUid, error: e },
                    ),
                    Ok(d) => exists|rt: Result<Seq<char>, ResolveErrorView>|
                        resolution(token, read_env, read_op, rt) && match token_outcome(rt) {
                            Err(e) => r == Err::<crate::http::HttpRequestView, QueryErrorView>(e),
                            Ok(t) => match scope_filter {
                                None => r == Ok::<crate::http::HttpRequestView, QueryErrorView>(
                                    grafana_request_view(u, d, t, query, None, time_range, limit),
                                ),
                                Some(sf) => exists|rs: Result<Seq<char>, ResolveErrorView>|
                                    resolution(sf, read_env, read_op, rs) && match rs {
                                        Err(e) => r == Err::<crate::http::HttpRequestView, QueryErrorView>(
                                            QueryErrorView::Resolve { field: Field::ScopeFilter, error: e },
                                        ),
                                        Ok(f) => r == Ok::<crate::http::HttpRequestView, QueryErrorView>(
                                            grafana_request_view(u, d, t, query, Some(f), time_range, limit),
                                        ),
                                    },
                            },
                        },
                },
        }
}

/// What preparing a Railway query may give once the environment and service are
/// known: the scoped filter, then the token, then the window, then the request.
pub open spec fn railway_after_service<
    E: Fn(&str) -> EnvLookup,
    O: Fn(&str, Option<&str>) -> Result<String, OpError>,
>(
    scope: RailwayScope,
    service_id: Option<Seq<char>>,
    environment_id: Seq<char>,
    token: StringValueView,
    auth: RailwayAuth,
    query: Seq<char>,
    time_range: TimeRange,
    now: crate::time_range::Timestamp,
    read_env: E,
    read_op: O,
    r: Result<crate::http::HttpRequestView, QueryErrorView>,
) -> bool {
    match crate::railway::scoped_filter(scope, service_id, query) {
        Err(e) => r == Err::<crate::http::HttpRequestView, QueryErrorView>(QueryErrorView::Scope(e)),
        Ok(f) => exists|rt: Result<Seq<char>, ResolveErrorView>|
            resolution(token, read_env, read_op, rt) && match token_outcome(rt) {
                Err(e) => r == Err::<crate::http::HttpRequestView, QueryErrorView>(e),
                Ok(t) => match crate::time_range::range_at(time_range, now) {
                    Err(e) => r == Err::<crate::http::HttpRequestView, QueryErrorView>(QueryErrorView::Range(e)),
                    Ok((from, to)) => r == Ok::<crate::http::HttpRequestView, QueryErrorView>(
                        crate::http::HttpRequestView {
                            url: crate::railway::RAILWAY_API_URL@,
                            credential: crate::railway::railway_credential(auth, t),
                            body: crate::railway::railway_body(environment_id, f, from, to),
                        },
                    ),
                },
            },
    }
}

/// What preparing a Railway query may give: the environment, then the service, are
/// resolved; the first failure is the outcome.
pub open spec fn railway_outcome<
    E: Fn(&str) -> EnvLookup,
    O: Fn(&str, Option<&str>) -> Result<String, OpError>,
>(
    environment_id: StringValueView,
    scope: RailwayScope,
    service_id: Option<StringValueView>,
    token: StringValueView,
    auth: RailwayAuth,
    query: Seq<char>,
    time_range: TimeRange,
    now: crate::time_range::Timestamp,
    read_env: E,
    read_op: O,
    r: Result<crate::http::HttpRequestView, QueryErrorView>,
) -> bool {
    exists|re: Result<Seq<char>, ResolveErrorView>|
        resolution(environment_id, read_env, read_op, re) && match re {
            Err(e) => r == Err::<crate::http::HttpRequestView, QueryErrorView>(
                QueryErrorView::Resolve { field: Field::EnvironmentId, error: e },
            ),
            Ok(env) => match service_id {
                None => railway_after_service(scope, None, env, token, auth, query, time_range, now, read_env, read_op, r),
                Some(sv) => exists|rs: Result<Seq<char>, ResolveErrorView>|
                    resolution(sv, read_env, read_op, rs) && match rs {
                        Err(e) => r == Err::<crate::http::HttpRequestView, QueryErrorView>(
                            QueryErrorView::Resolve { field: Field::ServiceId, error: e },
                        ),
                        Ok(s) => railway_after_service(
                            scope,
                            Some(s),
                            env,
                            token,
                            auth,
                            query,
                            time_range,
                            now,
                            read_env,
                            read_op,
                            r,
                        ),
                    },
            },
        }
}

/// What preparing a query of a backend may give.
pub open spec fn backend_outcome<
    E: Fn(&str) -> EnvLookup,
    O: Fn(&str, Option<&str>) -> Result<String, OpError>,
>(
    b: BackendView,
    query: Seq<char>,
    time_range: TimeRange,
    limit: nat,
    now: crate::time_range::Timestamp,
    read_env: E,
    read_op: O,
    r: Result<crate::http::HttpRequestView, QueryErrorView>,
) -> bool {
    match b {
        BackendView::VictoriaLogs { url, datasource_uid, token, scope_filter } => victoria_logs_outcome(
            url,
            datasource_uid,
            token,
            scope_filter,
            query,
            time_range,
            limit,
            read_env,
            read_op,
            r,
        ),
        BackendView::Railway { environment_id, scope, service_id, token, auth } => railway_outcome(
            environment_id,
            scope,
            service_id,
            token,
            auth,
            query,
            time_range,
            now,
            read_env,
            read_op,
            r,
        ),
    }
}

impl Backend {
    /// Resolves the backend's values and builds the request for a query.
    pub fn request<E: Fn(&str) -> EnvLookup, O: Fn(&str, Option<&str>) -> Result<String, OpError>>(
        &self,
        query: &str,
        time_range: &TimeRange,
        limit: usize,
        now: crate::time_range::Timestamp,
        read_env: &E,
        read_op: &O,
    ) -> (r: Result<crate::http::HttpRequest, QueryError>)
        requires
            forall|n: &str| call_requires(*read_env, (n,)),
            forall|a: &str, b: Option<&str>| call_requires(*read_op, (a, b)),
            self@ is Railway ==> now.is_instant(),
        ensures
            backend_outcome(self@, query@, *time_range, limit as nat, now, *read_env, *read_op, request_result_view(r)),
    {
        match self {
            Backend::VictoriaLogs { url, datasource_uid, token, scope_filter } => {
                let ru = url.resolve_with(read_env, read_op);
                let ghost ruv = result_view(ru);
                let u = match ru {
                    Err(e) => return Err(QueryError::Resolve { field: Field::Url, error: e }),
                    Ok(u) => u,
                };
                let rd = datasource_uid.resolve_with(read_env, read_op);
                let ghost rdv = result_view(rd);
                let d = match rd {
                    Err(e) => {
                        let r = Err(QueryError::Resolve { field: Field::DatasourceUid, error: e });
                        assert(resolution(url@, *read_env, *read_op, ruv));
                        return r;
                    },
                    Ok(d) => d,
                };
                let rt = read_token(token, read_env, read_op);
                let t = match rt {
                    Err(e) => {
                        let r = Err(e);
                        assert(resolution(url@, *read_env, *read_op, ruv));
                        assert(resolution(datasource_uid@, *read_env, *read_op, rdv));
                        return r;
                    },
                    Ok(t) => t,
                };
                let sf = match scope_filter {
                    None => None,
                    Some(v) => {
                        let rs = v.resolve_with(read_env, read_op);
                        match rs {
                            Err(e) => {
                                let r = Err(QueryError::Resolve { field: Field::ScopeFilter, error: e });
                                assert(resolution(url@, *read_env, *read_op, ruv));
                                assert(resolution(datasource_uid@, *read_env, *read_op, rdv));
                                return r;
                            },
                            Ok(f) => Some(f),
                        }
                    },
                };
                let scope = match &sf {
                    Some(f) => Some(f.as_str()),
                    None => None,
                };
                let q = crate::grafana::grafana_request(
                    u.as_str(),
                    d.as_str(),
                    t.as_str(),
                    query,
                    scope,
                    time_range,
                    limit,
                );
                assert(resolution(url@, *read_env, *read_op, ruv));
                assert(resolution(datasource_uid@, *read_env, *read_op, rdv));
                Ok(q)
            },
            Backend::Railway { environment_id, scope, service_id, token, auth } => {
                let re = environment_id.resolve_with(read_env, read_op);
                let ghost rev = result_view(re);
                let env = match re {
                    Err(e) => return Err(QueryError::Resolve { field: Field::EnvironmentId, error: e }),
                    Ok(v) => v,
                };
                let sid = match service_id {
                    None => None,
                    Some(v) => {
                        let rs = v.resolve_with(read_env, read_op);
                        match rs {
                            Err(e) => {
                                let r = Err(QueryError::Resolve { field: Field::ServiceId, error: e });
                                assert(resolution(environment_id@, *read_env, *read_op, rev));
                                return r;
                            },
                            Ok(s) => Some(s),
                        }
                    },
                };
                let sid_ref = match &sid {
                    Some(s) => Some(s.as_str()),
                    None => None,
                };
                let filter = match scope.filter(sid_ref, query) {
                    Err(e) => {
                        let r = Err(QueryError::Scope(e));
                        assert(resolution(environment_id@, *read_env, *read_op, rev));
                        return r;
                    },
                    Ok(f) => f,
                };
                let t = match read_token(token, read_env, read_op) {
                    Err(e) => {
                        let r = Err(e);
                        assert(resolution(environment_id@, *read_env, *read_op, rev));
                        return r;
                    },
                    Ok(t) => t,
                };
                let (from, to) = match time_range.resolve(now) {
                    Err(e) => {
                        let r = Err(QueryError::Range(e));
                        assert(resolution(environment_id@, *read_env, *read_op, rev));
                        return r;
                    },
                    Ok(window) => window,
                };
                let q = crate::railway::railway_request(
                    crate::railway::RAILWAY_API_URL,
                    t.as_str(),
                    *auth,
                    env.as_str(),
                    filter.as_str(),
                    from,
                    to,
                );
                assert(resolution(environment_id@, *read_env, *read_op, rev));
                Ok(q)
            },
        }
    }
}

} // verus!

verus! {

/// A query that is ready to be sent: the request, and what is needed to read the
/// reply.
#[derive(Debug, PartialEq, Eq)]
pub struct PreparedQuery {
    pub kind: BackendKind,
    pub limit: usize,
    pub request: crate::http::HttpRequest,
}

/// What checking a reply's status gives: nothing for a success; else an error with
/// the body, cut to a diagnostic for Grafana and whole for Railway.
pub open spec fn status_outcome(kind: BackendKind, status: u16, body: Seq<char>) -> Option<QueryErrorView> {
    if crate::http::is_success_status(status) {
        None
    } else {
        match kind {
            BackendKind::VictoriaLogs => Some(
                QueryErrorView::Status {
                    kind,
                    status,
                    detail: crate::http::diagnostic_of(body),
                },
            ),
            BackendKind::Railway => Some(QueryErrorView::Status { kind, status, detail: body }),
        }
    }
}

impl PreparedQuery {
    /// Checks the status of the backend's reply.
    pub fn check_status(&self, status: u16, body: &str) -> (r: Result<(), QueryError>)
        ensures
            match (r, status_outcome(self.kind, status, body@)) {
                (Ok(_), None) => true,
                (Err(e), Some(f)) => e@ == f,
                _ => false,
            },
    {
        if crate::http::is_success(status) {
            return Ok(());
        }
        let detail = match self.kind {
            BackendKind::VictoriaLogs => crate::http::diagnostic_body(body),
            BackendKind::Railway => owned(body),
        };
        Err(QueryError::Status { kind: self.kind, status, detail })
    }

    /// The entries of a Grafana reply, at most `limit` of them, the first ones.
    pub fn grafana_entries(&self, response: &crate::grafana::GrafanaResponse) -> (r: Vec<crate::json::Entry>)
        ensures
            r@.map_values(|e: crate::json::Entry| e.as_map()) == bounded(
                crate::grafana::results_entries(response.results@),
                false,
                self.limit as nat,
            ),
    {
        let entries = crate::grafana::extract_entries(response);
        let (r, _) = bound_entries(entries, false, self.limit);
        assert(r@.map_values(|e: crate::json::Entry| e.as_map()) =~= bounded(
            entries@.map_values(|e: crate::json::Entry| e.as_map()),
            false,
            self.limit as nat,
        ));
        r
    }

    /// The entries of a Railway reply, at most `limit` of them, the newest ones; a
    /// reply with GraphQL errors is an error.
    pub fn railway_entries(&self, response: &crate::json::JsonValue) -> (r: Result<Vec<crate::json::Entry>, QueryError>)
        ensures
            match crate::railway::graphql_errors(response@) {
                Some(errors) => r matches Err(e) && e@ == QueryErrorView::GraphQl { errors },
                None => r matches Ok(entries) && entries@.map_values(|e: crate::json::Entry| e.as_map()) == bounded(
                    crate::railway::railway_entries(crate::railway::railway_lines(response@)),
                    true,
                    self.limit as nat,
                ),
            },
    {
        match crate::railway::find_graphql_errors(response) {
            Some(errors) => Err(QueryError::GraphQl { errors: errors.deep_clone() }),
            None => {
                let entries = crate::railway::extract_entries(response);
                let (r, _) = bound_entries(entries, true, self.limit);
                assert(r@.map_values(|e: crate::json::Entry| e.as_map()) =~= bounded(
                    entries@.map_values(|e: crate::json::Entry| e.as_map()),
                    true,
                    self.limit as nat,
                ));
                Ok(r)
            },
        }
    }

    /// The entries of a Railway reply given as its body: the body must be JSON, and
    /// then it is read as `railway_entries` reads it.
    pub fn railway_reply_entries(&self, body: &str) -> (r: Result<Vec<crate::json::Entry>, QueryError>)
        ensures
            match crate::json::json_of_text(body@) {
                None => r matches Err(e) && e@ == QueryErrorView::NotJson { kind: BackendKind::Railway },
                Some(response) => match crate::railway::graphql_errors(response) {
                    Some(errors) => r matches Err(e) && e@ == QueryErrorView::GraphQl { errors },
                    None => r matches Ok(entries) && entries@.map_values(|e: crate::json::Entry| e.as_map())
                        == bounded(
                        crate::railway::railway_entries(crate::railway::railway_lines(response)),
                        true,
                        self.limit as nat,
                    ),
                },
            },
    {
        match crate::json::parse_json_text(body) {
            None => Err(QueryError::NotJson { kind: BackendKind::Railway }),
            Some(response) => self.railway_entries(&response),
        }
    }
}

pub open spec fn prepared_view(r: Result<PreparedQuery, QueryError>) -> Result<
    (BackendKind, usize, crate::http::HttpRequestView),
    QueryErrorView,
> {
    match r {
        Ok(p) => Ok((p.kind, p.limit, p.request@)),
        Err(e) => Err(e@),
    }
}

/// Prepares a query of a configured project: the limit must be between 1 and
/// `MAX_RESULT_LIMIT`, and the project must be configured.
pub fn query_project<E: Fn(&str) -> EnvLookup, O: Fn(&str, Option<&str>) -> Result<String, OpError>>(
    config: &Config,
    project_name: &str,
    query: &str,
    time_range: &TimeRange,
    limit: usize,
    now: crate::time_range::Timestamp,
    read_env: &E,
    read_op: &O,
) -> (r: Result<PreparedQuery, QueryError>)
    requires
        forall|n: &str| call_requires(*read_env, (n,)),
        forall|a: &str, b: Option<&str>| call_requires(*read_op, (a, b)),
        config.as_map().contains_key(project_name@) && config.as_map()[project_name@] is Railway ==> now.is_instant(),
    ensures
        !(1 <= limit <= MAX_RESULT_LIMIT) ==> prepared_view(r) == Err::<
            (BackendKind, usize, crate::http::HttpRequestView),
            QueryErrorView,
        >(QueryErrorView::LimitOutOfRange),
        1 <= limit <= MAX_RESULT_LIMIT && !config.as_map().contains_key(project_name@) ==> prepared_view(r) == Err::<
            (BackendKind, usize, crate::http::HttpRequestView),
            QueryErrorView,
        >(QueryErrorView::UnknownProject { name: project_name@ }),
        1 <= limit <= MAX_RESULT_LIMIT && config.as_map().contains_key(project_name@) ==> exists|
            q: Result<crate::http::HttpRequestView, QueryErrorView>,
        |
            backend_outcome(config.as_map()[project_name@], query@, *time_range, limit as nat, now, *read_env, *read_op, q)
                && prepared_view(r) == match q {
                Ok(req) => Ok((kind_of(config.as_map()[project_name@]), limit, req)),
                Err(e) => Err(e),
            },
{
    if limit < 1 || limit > MAX_RESULT_LIMIT {
        return Err(QueryError::LimitOutOfRange);
    }
    let backend = match config.backend(project_name) {
        Some(b) => b,
        None => return Err(QueryError::UnknownProject { name: owned(project_name) }),
    };
    let kind = match backend {
        Backend::VictoriaLogs { .. } => BackendKind::VictoriaLogs,
        Backend::Railway { .. } => BackendKind::Railway,
    };
    let q = backend.request(query, time_range, limit, now, read_env, read_op);
    let ghost qv = request_result_view(q);
    let r = match q {
        Ok(request) => Ok(PreparedQuery { kind, limit, request }),
        Err(e) => Err(e),
    };
    assert(backend_outcome(config.as_map()[project_name@], query@, *time_range, limit as nat, now, *read_env, *read_op, qv));
    r
}

} // verus!

verus! {

// ---------------------------------------------------------------------------
// Messages
// ---------------------------------------------------------------------------

/// The backend's name in messages.
pub open spec fn kind_label(kind: BackendKind) -> Seq<char> {
    match kind {
        BackendKind::VictoriaLogs => "Grafana"@,
        BackendKind::Railway => "Railway"@,
    }
}

impl BackendKind {
    /// The backend's name in messages.
    pub fn label(&self) -> (r: &'static str)
        ensures
            r@ == kind_label(*self),
    {
        match self {
            BackendKind::VictoriaLogs => "Grafana",
            BackendKind::Railway => "Railway",
        }
    }
}

/// The text of a query error, GraphQL errors with their JSON. A failed resolution
/// or an invalid time is reported without its cause, which comes after it.
pub open spec fn query_error_message(e: QueryErrorView) -> Seq<char> {
    match e {
        QueryErrorView::LimitOutOfRange => "limit must be between 1 and 100"@,
        QueryErrorView::UnknownProject { name } => "project "@ + debug_quoted(name) + " is not configured"@,
        QueryErrorView::Resolve { field, .. } => "failed to resolve `"@ + field_name(field) + "`"@,
        QueryErrorView::EmptyToken => "configured token resolved to an empty value"@,
        QueryErrorView::Scope(s) => scope_error_message(s),
        QueryErrorView::Range(e) => crate::time_range::range_error_message(e),
        QueryErrorView::NotJson { kind } => "failed to parse "@ + kind_label(kind) + " response as JSON"@,
        QueryErrorView::Status { kind, status, detail } => kind_label(kind) + " query failed with status "@
            + crate::http::http_status_text(status) + ": "@ + detail,
        QueryErrorView::GraphQl { errors } => "Railway query returned GraphQL errors: "@ + crate::json::json_text(errors),
    }
}

impl QueryError {
    /// The text of the error.
    pub fn message(&self) -> (r: String)
        ensures
            r@ == query_error_message(self@),
    {
        match self {
            QueryError::LimitOutOfRange => owned("limit must be between 1 and 100"),
            QueryError::UnknownProject { name } => {
                let mut r = owned("project ");
                let q = debug_quote(name.as_str());
                r.append(q.as_str());
                r.append(" is not configured");
                r
            },
            QueryError::Resolve { field, .. } => {
                let mut r = owned("failed to resolve `");
                r.append(field.name());
                r.append("`");
                r
            },
            QueryError::EmptyToken => owned("configured token resolved to an empty value"),
            QueryError::Scope(s) => s.message(),
            QueryError::Range(e) => e.message(),
            QueryError::NotJson { kind } => {
                let mut r = owned("failed to parse ");
                r.append(kind.label());
                r.append(" response as JSON");
                r
            },
            QueryError::Status { kind, status, detail } => {
                let mut r = owned(kind.label());
                r.append(" query failed with status ");
                let s = crate::http::status_text(*status);
                r.append(s.as_str());
                r.append(": ");
                r.append(detail.as_str());
                r
            },
            QueryError::GraphQl { errors } => {
                let mut r = owned("Railway query returned GraphQL errors: ");
                let text = crate::json::render_json(errors);
                r.append(text.as_str());
                r
            },
        }
    }
}

/// The text of a backend problem, without the underlying value error.
pub open spec fn backend_problem_message(p: BackendProblemView) -> Seq<char> {
    match p {
        BackendProblemView::Field { field, .. } => "invalid `"@ + field_name(field) + "`"@,
        BackendProblemView::Scope(s) => scope_error_message(s),
    }
}

impl BackendProblem {
    /// The text of the problem, without the underlying value error.
    pub fn message(&self) -> (r: String)
        ensures
            r@ == backend_problem_message(self@),
    {
        match self {
            BackendProblem::Field { field, .. } => {
                let mut r = owned("invalid `");
                r.append(field.name());
                r.append("`");
                r
            },
            BackendProblem::Scope(s) => s.message(),
        }
    }
}

impl ConfigError {
    /// The text of the error, naming the project, without the underlying problem.
    pub fn message(&self) -> (r: String)
        ensures
            r@ == "invalid project "@ + debug_quoted(self.project@),
    {
        let mut r = owned("invalid project ");
        let q = debug_quote(self.project.as_str());
        r.append(q.as_str());
        r
    }
}

} // verus!
