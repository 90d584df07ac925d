use vstd::prelude::*;

use crate::{backend_problem, backend_problem_message, field_name, opt_field_problem, bounded, BackendProblemView, BackendView, Field};
use crate::config_discovery::{search_outcome, DirPath};
use crate::config_value::{resolution, source_resolution, EnvLookup, OpError, ResolveErrorView, SourceView, StringValueView};
use crate::grafana::{GrafanaFrame, row_count, grafana_query_model, results_entries, frames_entries, frame_entries, row_entry, column_name, cell};
use crate::http::{diagnostic_of, is_cut_point, truncation_marker, DIAGNOSTIC_BODY_LIMIT};
use crate::json::{json_field, json_get, non_null, put, Json};
use crate::railway::{railway_body, railway_entries, railway_entry, scoped_filter, RailwayScope};
use crate::text::{decimal, digit_char, lemma_utf8_len_take_step, utf8_len};
use crate::time_range::{
    chrono_add_seconds, chrono_rfc3339_secs, timestamp_of, all_digits, digits_value, duration_seconds, is_digit, parse_i64, relative_sign, shifted, time_at, unit_seconds, TimeError,
    Timestamp, MAX_DELTA_SECS, MAX_UTC_SECS, MIN_UTC_SECS, NANOS_PER_SEC,
};

verus! {

// ---------------------------------------------------------------------------
// Resolution of configuration strings
// ---------------------------------------------------------------------------

/// A literal string is used exactly as written, whatever the environment and
/// 1Password hold.
pub proof fn law_literal_is_used_as_written<
    E: Fn(&str) -> EnvLookup,
    O: Fn(&str, Option<&str>) -> Result<String, OpError>,
>(s: Seq<char>, read_env: E, read_op: O, r: Result<Seq<char>, ResolveErrorView>)
    requires
        resolution(StringValueView::Literal(s), read_env, read_op, r),
    ensures
        r == Ok::<Seq<char>, ResolveErrorView>(s),
{
}

/// When the configured environment variable is present, its value is used as it
/// is, even when empty, and 1Password is not consulted.
pub proof fn law_present_variable_wins<
    E: Fn(&str) -> EnvLookup,
    O: Fn(&str, Option<&str>) -> Result<String, OpError>,
>(s: SourceView, read_env: E, read_op: O, value: Seq<char>, r: Result<Seq<char>, ResolveErrorView>)
    requires
        !(s.op is None && s.op_account is Some),
        s.env is Some,
        forall|n: &str, e: EnvLookup|
            n@ == s.env->0 && call_ensures(read_env, (n,), e) ==> (e matches EnvLookup::Present(v) && v@ == value),
        source_resolution(s, read_env, read_op, r),
    ensures
        r == Ok::<Seq<char>, ResolveErrorView>(value),
{
}

/// When the configured environment variable is absent and a 1Password reference is
/// configured, the value is what `op read` gives for the reference, used as it is.
pub proof fn law_absent_variable_falls_back_to_op<
    E: Fn(&str) -> EnvLookup,
    O: Fn(&str, Option<&str>) -> Result<String, OpError>,
>(s: SourceView, read_env: E, read_op: O, value: Seq<char>, r: Result<Seq<char>, ResolveErrorView>)
    requires
        s.env is Some,
        s.op is Some,
        forall|n: &str, e: EnvLookup| n@ == s.env->0 && call_ensures(read_env, (n,), e) ==> e is NotPresent,
        forall|a: &str, b: Option<&str>, o: Result<String, OpError>|
            a@ == s.op->0 && call_ensures(read_op, (a, b), o) ==> (o matches Ok(v) && v@ == value),
        source_resolution(s, read_env, read_op, r),
    ensures
        r == Ok::<Seq<char>, ResolveErrorView>(value),
{
}

// ---------------------------------------------------------------------------
// Bounded results
// ---------------------------------------------------------------------------

/// A bounded list holds `min(len, limit)` entries, a window of the list: its first
/// entries, or its last ones when the newest are kept.
pub proof fn law_bounded_window<T>(entries: Seq<T>, retain_newest: bool, limit: nat)
    ensures
        bounded(entries, retain_newest, limit).len() == if entries.len() < limit {
            entries.len()
        } else {
            limit
        },
        retain_newest ==> bounded(entries, retain_newest, limit) == entries.subrange(
            entries.len() - bounded(entries, retain_newest, limit).len(),
            entries.len() as int,
        ),
        !retain_newest ==> bounded(entries, retain_newest, limit) == entries.take(
            bounded(entries, retain_newest, limit).len() as int,
        ),
{
    if retain_newest && entries.len() <= limit {
        assert(entries.subrange(0, entries.len() as int) =~= entries);
    }
    if !retain_newest && entries.len() <= limit {
        assert(entries.take(entries.len() as int) =~= entries);
    }
}

// ---------------------------------------------------------------------------
// Backend-native queries are passed on unchanged
// ---------------------------------------------------------------------------

/// `part` occurs in `whole`.
pub open spec fn contains_at(whole: Seq<char>, part: Seq<char>) -> bool {
    exists|i: int| 0 <= i && i + part.len() <= whole.len() && #[trigger] whole.subrange(i, i + part.len()) == part
}

/// A Railway service scope puts `@service:<id>` in front of the caller's filter and
/// keeps the filter, unchanged, inside; an environment scope sends the filter as it
/// is.
pub proof fn law_railway_scope_keeps_the_filter(scope: RailwayScope, service_id: Option<Seq<char>>, filter: Seq<char>)
    ensures
        scoped_filter(scope, service_id, filter) is Ok ==> (scoped_filter(scope, service_id, filter)->Ok_0.take(
            "@service:"@.len() as int,
        ) == "@service:"@ || scoped_filter(scope, service_id, filter)->Ok_0 == filter),
        scoped_filter(scope, service_id, filter) is Ok && filter.len() > 0 && scope == RailwayScope::Service
            ==> contains_at(scoped_filter(scope, service_id, filter)->Ok_0, filter),
        scope == RailwayScope::Environment && service_id is None ==> scoped_filter(scope, service_id, filter) == Ok::<
            Seq<char>,
            crate::railway::ScopeError,
        >(filter),
{
    if let Ok(f) = scoped_filter(scope, service_id, filter) {
        if scope == RailwayScope::Service {
            let id = service_id->0;
            let head = "@service:"@ + id;
            if filter.len() > 0 {
                let i: int = (head.len() + " AND ("@.len()) as int;
                assert(f == head + " AND ("@ + filter + ")"@);
                assert(f.subrange(i, i + filter.len()) =~= filter);
                assert(f.take("@service:"@.len() as int) =~= "@service:"@);
            } else {
                assert(f.take("@service:"@.len() as int) =~= "@service:"@);
            }
        }
    }
}

/// The LogsQL query is sent as the Grafana query's `expr`, unchanged, and a
/// configured scope filter separately as its `extraFilters`.
pub proof fn law_grafana_query_is_sent_unchanged(
    datasource_uid: Seq<char>,
    query: Seq<char>,
    scope_filter: Option<Seq<char>>,
    limit: nat,
)
    ensures
        grafana_query_model(datasource_uid, query, scope_filter, limit) matches Json::Object(m) && json_field(
            m,
            "expr"@,
        ) == Some(Json::Str(query)) && json_field(m, "extraFilters"@) == match scope_filter {
            Some(f) => Some(Json::Str(f)),
            None => None::<Json>,
        },
{
    reveal_strlit("datasource");
    reveal_strlit("expr");
    reveal_strlit("extraFilters");
    reveal_strlit("maxLines");
    reveal_strlit("queryType");
    reveal_strlit("refId");
    let m = match grafana_query_model(datasource_uid, query, scope_filter, limit) {
        Json::Object(m) => m,
        _ => Seq::empty(),
    };
    assert(m[0].0 != "expr"@ && m[0].0 != "extraFilters"@) by {
        assert(m[0].0[1] != "expr"@[1]);
        assert(m[0].0[1] != "extraFilters"@[1]);
    }
    assert(m.drop_first()[0].0 == "expr"@);
    assert(m.drop_first()[0].0 != "extraFilters"@) by {
        assert(m.drop_first()[0].0.len() != "extraFilters"@.len());
    }
    let ef = "extraFilters"@;
    assert(json_field(m, "expr"@) == json_field(m.drop_first(), "expr"@));
    assert(json_field(m.drop_first(), "expr"@) == Some(Json::Str(query)));
    let rest = m.drop_first().drop_first();
    assert(json_field(m, ef) == json_field(m.drop_first(), ef));
    assert(json_field(m.drop_first(), ef) == json_field(rest, ef));
    match scope_filter {
        Some(f) => {
            assert(rest[0].0 == ef);
            assert(json_field(rest, ef) == Some(Json::Str(f)));
        },
        None => {
            assert(rest.len() == 3);
            assert(rest[0].0[0] != ef[0]);
            assert(rest.drop_first()[0].0[0] != ef[0]);
            assert(rest.drop_first().drop_first()[0].0[0] != ef[0]);
            assert(rest.drop_first().drop_first().drop_first().len() == 0);
            assert(json_field(rest.drop_first().drop_first().drop_first(), ef) is None);
            assert(json_field(rest.drop_first().drop_first(), ef) is None);
            assert(json_field(rest.drop_first(), ef) is None);
            assert(json_field(rest, ef) is None);
        },
    }
}

} // verus!

verus! {

pub proof fn lemma_utf8_len_concat(a: Seq<char>, b: Seq<char>)
    ensures
        utf8_len(a + b) == utf8_len(a) + utf8_len(b),
    decreases b.len(),
{
    if b.len() > 0 {
        lemma_utf8_len_concat(a, b.drop_last());
        assert((a + b).drop_last() =~= a + b.drop_last());
        assert((a + b).last() == b.last());
    } else {
        assert(a + b =~= a);
    }
}

// ---------------------------------------------------------------------------
// Diagnostics of failed responses
// ---------------------------------------------------------------------------

/// A diagnostic never takes more than `DIAGNOSTIC_BODY_LIMIT` bytes: it is the whole
/// body when that fits, else a prefix of it followed by the truncation marker.
pub proof fn law_diagnostic_is_bounded(body: Seq<char>)
    ensures
        utf8_len(diagnostic_of(body)) <= DIAGNOSTIC_BODY_LIMIT,
        utf8_len(body) <= DIAGNOSTIC_BODY_LIMIT ==> diagnostic_of(body) == body,
        utf8_len(body) > DIAGNOSTIC_BODY_LIMIT ==> exists|k: int|
            0 <= k < body.len() && diagnostic_of(body) == body.take(k) + truncation_marker(),
{
    if utf8_len(body) > DIAGNOSTIC_BODY_LIMIT {
        // A cut point exists: the last prefix that fits the budget.
        let _k = choose_cut(body, 0);
        let c = choose|c: int| is_cut_point(body, c);
        assert(is_cut_point(body, c));
        lemma_utf8_len_concat(body.take(c), truncation_marker());
        reveal_strlit("... [truncated]");
        assert(utf8_len(truncation_marker()) == 15) by {
            let m = truncation_marker();
            assert(m.len() == 15);
            assert forall|i: int| 0 <= i <= 15 implies #[trigger] utf8_len(m.take(i)) == i by {
                lemma_prefix_ascii(m, i);
            }
            assert(m.take(15) =~= m);
        }
    }
}

proof fn lemma_prefix_ascii(m: Seq<char>, i: int)
    requires
        m == "... [truncated]"@,
        0 <= i <= 15,
    ensures
        utf8_len(m.take(i)) == i,
    decreases i,
{
    reveal_strlit("... [truncated]");
    if i > 0 {
        lemma_prefix_ascii(m, i - 1);
        lemma_utf8_len_take_step(m, i - 1);
    }
}

/// A body longer than the limit has a cut point at or after `from`, when the prefix
/// of `from` characters fits the budget.
proof fn choose_cut(body: Seq<char>, from: int) -> (k: int)
    requires
        0 <= from <= body.len(),
        utf8_len(body.take(from)) <= DIAGNOSTIC_BODY_LIMIT - 15,
        utf8_len(body) > DIAGNOSTIC_BODY_LIMIT,
    ensures
        is_cut_point(body, k),
    decreases body.len() - from,
{
    if from == body.len() {
        assert(body.take(from) =~= body);
        from
    } else {
        lemma_utf8_len_take_step(body, from);
        if utf8_len(body.take(from + 1)) > DIAGNOSTIC_BODY_LIMIT - 15 {
            from
        } else {
            choose_cut(body, from + 1)
        }
    }
}

} // verus!

verus! {

// ---------------------------------------------------------------------------
// Finding the configuration
// ---------------------------------------------------------------------------

/// `a` is `b` or one of its ancestors.
pub open spec fn is_ancestor_or_self(a: Seq<Seq<u8>>, b: Seq<Seq<u8>>) -> bool {
    a.len() <= b.len() && b.take(a.len() as int) == a
}

/// The search uses the nearest configuration: the directory it finds is the start
/// or an ancestor of it, it answered that it holds the configuration, and every
/// directory on the way answered that it does not. The home directory is a
/// boundary: it is never a result, nor is anything above it.
pub proof fn law_nearest_configuration_below_home<F: Fn(&DirPath) -> Result<bool, String>>(
    dir: Seq<Seq<u8>>,
    home: Option<Seq<Seq<u8>>>,
    probe: F,
    r: Result<Option<Seq<Seq<u8>>>, (Seq<Seq<u8>>, Seq<char>)>,
)
    requires
        search_outcome(dir, home, probe, r),
    ensures
        home == Some(dir) ==> r == Ok::<Option<Seq<Seq<u8>>>, (Seq<Seq<u8>>, Seq<char>)>(None),
        r is Ok && r->Ok_0 is Some ==> {
            let d = r->Ok_0->0;
            &&& is_ancestor_or_self(d, dir)
            &&& crate::config_discovery::probe_answers(probe, d, Ok(true))
            &&& forall|e: Seq<Seq<u8>>|
                is_ancestor_or_self(d, e) && is_ancestor_or_self(e, dir) && e != d ==> crate::config_discovery::probe_answers(
                    probe,
                    e,
                    Ok(false),
                )
            &&& home is Some && is_ancestor_or_self(home->0, dir) ==> home->0.len() < d.len()
        },
    decreases dir.len(),
{
    if home != Some(dir) {
        let a = choose|a: Result<bool, String>|
            crate::config_discovery::probe_answers(probe, dir, a) && match a {
                Err(e) => r == Err::<Option<Seq<Seq<u8>>>, (Seq<Seq<u8>>, Seq<char>)>((dir, e@)),
                Ok(true) => r == Ok::<Option<Seq<Seq<u8>>>, (Seq<Seq<u8>>, Seq<char>)>(Some(dir)),
                Ok(false) => if dir.len() == 0 {
                    r == Ok::<Option<Seq<Seq<u8>>>, (Seq<Seq<u8>>, Seq<char>)>(None)
                } else {
                    search_outcome(dir.drop_last(), home, probe, r)
                },
            };
        match a {
            Ok(true) => {
                assert(dir.take(dir.len() as int) =~= dir);
                assert forall|e: Seq<Seq<u8>>|
                    is_ancestor_or_self(dir, e) && is_ancestor_or_self(e, dir) implies e == dir by {
                    assert(e.len() == dir.len());
                    assert(e.take(e.len() as int) =~= e);
                }
                if home is Some && is_ancestor_or_self(home->0, dir) {
                    let h = home->0;
                    if h.len() == dir.len() {
                        assert(dir.take(h.len() as int) =~= dir);
                    }
                }
            },
            Ok(false) => {
                if dir.len() > 0 {
                    let p = dir.drop_last();
                    law_nearest_configuration_below_home(p, home, probe, r);
                    if r is Ok && r->Ok_0 is Some {
                        let d = r->Ok_0->0;
                        assert(dir.take(d.len() as int) =~= p.take(d.len() as int));
                        assert forall|e: Seq<Seq<u8>>|
                            is_ancestor_or_self(d, e) && is_ancestor_or_self(e, dir) && e != d implies crate::config_discovery::probe_answers(
                            probe,
                            e,
                            Ok(false),
                        ) by {
                            if e.len() == dir.len() {
                                assert(e.take(e.len() as int) =~= e);
                                assert(e == dir);
                            } else {
                                assert(p.take(e.len() as int) =~= dir.take(e.len() as int));
                                assert(is_ancestor_or_self(e, p));
                            }
                        }
                        if home is Some && is_ancestor_or_self(home->0, dir) {
                            let h = home->0;
                            if h.len() == dir.len() {
                                assert(dir.take(h.len() as int) =~= dir);
                            } else {
                                assert(p.take(h.len() as int) =~= dir.take(h.len() as int));
                            }
                        }
                    }
                }
            },
            Err(_) => {},
        }
    }
}

} // verus!

verus! {

// ---------------------------------------------------------------------------
// Entries
// ---------------------------------------------------------------------------

/// An entry that is not empty and holds no `null` value.
pub open spec fn is_proper_entry(m: Map<Seq<char>, Json>) -> bool {
    &&& m != Map::<Seq<char>, Json>::empty()
    &&& forall|k: Seq<char>| #[trigger] m.contains_key(k) ==> !(m[k] is Null)
}

pub open spec fn no_nulls(m: Map<Seq<char>, Json>) -> bool {
    forall|k: Seq<char>| #[trigger] m.contains_key(k) ==> !(m[k] is Null)
}

proof fn lemma_put_non_null(m: Map<Seq<char>, Json>, k: Seq<char>, v: Option<Json>)
    requires
        no_nulls(m),
        v matches Some(x) ==> !(x is Null),
    ensures
        no_nulls(put(m, k, v)),
{
}

proof fn lemma_row_entry_no_nulls(frame: crate::grafana::GrafanaFrame, row: int, columns: nat)
    ensures
        no_nulls(row_entry(frame, row, columns)),
    decreases columns,
{
    if columns > 0 {
        let c = (columns - 1) as nat;
        lemma_row_entry_no_nulls(frame, row, c);
        lemma_put_non_null(row_entry(frame, row, c), column_name(frame.schema.fields@[c as int], c), cell(frame, c as int, row));
    }
}

proof fn lemma_frame_entries_proper(frame: crate::grafana::GrafanaFrame, rows: nat)
    ensures
        forall|i: int| 0 <= i < frame_entries(frame, rows).len() ==> is_proper_entry(#[trigger] frame_entries(frame, rows)[i]),
    decreases rows,
{
    if rows > 0 {
        let r = (rows - 1) as nat;
        lemma_frame_entries_proper(frame, r);
        lemma_row_entry_no_nulls(frame, r as int, frame.schema.fields@.len());
        let rest = frame_entries(frame, r);
        let e = row_entry(frame, r as int, frame.schema.fields@.len());
        if e != Map::<Seq<char>, Json>::empty() {
            assert forall|i: int| 0 <= i < rest.push(e).len() implies is_proper_entry(#[trigger] rest.push(e)[i]) by {
                if i < rest.len() {
                    assert(rest.push(e)[i] == rest[i]);
                }
            }
        }
    }
}

proof fn lemma_frames_entries_proper(frames: Seq<crate::grafana::GrafanaFrame>)
    ensures
        forall|i: int| 0 <= i < frames_entries(frames).len() ==> is_proper_entry(#[trigger] frames_entries(frames)[i]),
    decreases frames.len(),
{
    if frames.len() > 0 {
        lemma_frames_entries_proper(frames.drop_last());
        let last = frames.last();
        lemma_frame_entries_proper(last, crate::grafana::row_count(last));
        let a = frames_entries(frames.drop_last());
        let b = frame_entries(last, crate::grafana::row_count(last));
        assert forall|i: int| 0 <= i < (a + b).len() implies is_proper_entry(#[trigger] (a + b)[i]) by {
            if i < a.len() {
                assert((a + b)[i] == a[i]);
            } else {
                assert((a + b)[i] == b[i - a.len()]);
            }
        }
    }
}

/// Every Grafana entry has at least one field, and no field is `null`.
pub proof fn law_grafana_entries_are_proper(results: Seq<(Seq<char>, crate::grafana::GrafanaResult)>)
    ensures
        forall|i: int| 0 <= i < results_entries(results).len() ==> is_proper_entry(#[trigger] results_entries(results)[i]),
    decreases results.len(),
{
    if results.len() > 0 {
        law_grafana_entries_are_proper(results.drop_last());
        lemma_frames_entries_proper(results.last().1.frames@);
        let a = results_entries(results.drop_last());
        let b = frames_entries(results.last().1.frames@);
        assert forall|i: int| 0 <= i < (a + b).len() implies is_proper_entry(#[trigger] (a + b)[i]) by {
            if i < a.len() {
                assert((a + b)[i] == a[i]);
            } else {
                assert((a + b)[i] == b[i - a.len()]);
            }
        }
    }
}

/// Every Railway entry has at least one field, and no field is `null`.
pub proof fn law_railway_entries_are_proper(lines: Seq<Json>)
    ensures
        forall|i: int| 0 <= i < railway_entries(lines).len() ==> is_proper_entry(#[trigger] railway_entries(lines)[i]),
    decreases lines.len(),
{
    if lines.len() > 0 {
        law_railway_entries_are_proper(lines.drop_last());
        let line = lines.last();
        let e = railway_entry(line);
        assert(no_nulls(e)) by {
            let m0 = Map::<Seq<char>, Json>::empty();
            let m1 = put(m0, "timestamp"@, crate::json::non_null(crate::json::json_get(line, "timestamp"@)));
            let m2 = put(m1, "message"@, crate::json::non_null(crate::json::json_get(line, "message"@)));
            let m3 = put(m2, "severity"@, crate::json::non_null(crate::json::json_get(line, "severity"@)));
            assert(no_nulls(m3));
            match crate::json::json_get(line, "tags"@) {
                Some(tags) => {
                    let m4 = put(m3, "serviceId"@, crate::json::non_null(crate::json::json_get(tags, "serviceId"@)));
                    assert(no_nulls(m4));
                },
                None => {},
            }
        }
        let rest = railway_entries(lines.drop_last());
        if (line is Object) && e != Map::<Seq<char>, Json>::empty() {
            assert forall|i: int| 0 <= i < rest.push(e).len() implies is_proper_entry(#[trigger] rest.push(e)[i]) by {
                if i < rest.len() {
                    assert(rest.push(e)[i] == rest[i]);
                }
            }
        }
    }
}

} // verus!

verus! {

// ---------------------------------------------------------------------------
// Relative times
// ---------------------------------------------------------------------------

/// A number written in decimal reads back as itself.
pub proof fn lemma_decimal_digits(n: nat)
    ensures
        decimal(n).len() > 0,
        all_digits(decimal(n)),
        digits_value(decimal(n)) == n,
    decreases n,
{
    let d = n % 10;
    assert(('0' as u32) + d <= ('9' as u32));
    let c = digit_char(d);
    assert(c as int == '0' as int + d);
    assert(is_digit(c));
    if n < 10 {
        let s = decimal(n);
        assert(s.drop_last() =~= Seq::<char>::empty());
        assert(digits_value(s.drop_last()) == 0);
    } else {
        lemma_decimal_digits(n / 10);
        let s = decimal(n);
        assert(s.drop_last() =~= decimal(n / 10));
        assert(s.last() == c);
        assert forall|i: int| 0 <= i < s.len() implies is_digit(#[trigger] s[i]) by {
            if i < s.len() - 1 {
                assert(s[i] == decimal(n / 10)[i]);
            }
        }
    }
}

/// `now` is the instant itself; `now-<n><unit>` and `now+<n><unit>` are that many
/// units before and after it (`s`, `m`, `h`, `d` or `w`, with `n` written in decimal),
/// or out of range when `chrono` cannot represent the result. Outside a leap second
/// that is the plain sum; during one, `chrono`'s own sum.
pub proof fn law_relative_times(now: Timestamp, n: nat, unit: char)
    requires
        now.is_instant(),
        n > 0,
        unit_seconds(seq![unit]) is Some,
        n * unit_seconds(seq![unit])->0 <= MAX_DELTA_SECS,
    ensures
        time_at("now"@, now) == Ok::<Timestamp, TimeError>(now),
        time_at("now-"@ + decimal(n) + seq![unit], now) == match shifted(
            now,
            (-(n * unit_seconds(seq![unit])->0)) as i64,
        ) {
            Some(t) => Ok::<Timestamp, TimeError>(t),
            None => Err(TimeError::OutOfRange),
        },
        time_at("now+"@ + decimal(n) + seq![unit], now) == match shifted(
            now,
            (n * unit_seconds(seq![unit])->0) as i64,
        ) {
            Some(t) => Ok::<Timestamp, TimeError>(t),
            None => Err(TimeError::OutOfRange),
        },
        now.nanos >= NANOS_PER_SEC ==> time_at("now-"@ + decimal(n) + seq![unit], now) == match timestamp_of(
            chrono_add_seconds(now.secs, now.nanos, (-(n * unit_seconds(seq![unit])->0)) as i64),
        ) {
            Some(t) => Ok::<Timestamp, TimeError>(t),
            None => Err(TimeError::OutOfRange),
        },
        now.nanos >= NANOS_PER_SEC ==> time_at("now+"@ + decimal(n) + seq![unit], now) == match timestamp_of(
            chrono_add_seconds(now.secs, now.nanos, (n * unit_seconds(seq![unit])->0) as i64),
        ) {
            Some(t) => Ok::<Timestamp, TimeError>(t),
            None => Err(TimeError::OutOfRange),
        },
        now.nanos < NANOS_PER_SEC ==> ({
            let back = now.secs - n * unit_seconds(seq![unit])->0;
            time_at("now-"@ + decimal(n) + seq![unit], now) == if MIN_UTC_SECS <= back {
                Ok::<Timestamp, TimeError>(Timestamp { secs: back as i64, nanos: now.nanos })
            } else {
                Err(TimeError::OutOfRange)
            }
        }),
        now.nanos < NANOS_PER_SEC ==> ({
            let ahead = now.secs + n * unit_seconds(seq![unit])->0;
            time_at("now+"@ + decimal(n) + seq![unit], now) == if ahead <= MAX_UTC_SECS {
                Ok::<Timestamp, TimeError>(Timestamp { secs: ahead as i64, nanos: now.nanos })
            } else {
                Err(TimeError::OutOfRange)
            }
        }),
{
    reveal_strlit("now");
    reveal_strlit("now-");
    reveal_strlit("now+");
    let k = unit_seconds(seq![unit])->0;
    assert(k >= 1);
    assert(n <= n * k) by (nonlinear_arith)
        requires
            k >= 1,
    ;
    assert(n * k > 0) by (nonlinear_arith)
        requires
            k >= 1,
            n > 0,
    ;
    lemma_decimal_digits(n);
    let digits = decimal(n);
    assert(digits[0] != '-' && digits[0] != '+') by {
        assert(is_digit(digits[0]));
    }
    assert(parse_i64(digits) == Some(n as i64));
    let offset = digits + seq![unit];
    assert(offset.drop_last() =~= digits);
    assert(offset.subrange(offset.len() - 1, offset.len() as int) =~= seq![unit]);
    assert(duration_seconds(offset) == Ok::<int, TimeError>(n * k));
    let minus = "now-"@ + digits + seq![unit];
    assert(minus.len() > 3);
    assert(minus != "now"@);
    assert(minus.take(4) =~= "now-"@);
    assert(minus.skip(4) =~= offset);
    assert(relative_sign(minus) == Some(-1int));
    let plus = "now+"@ + digits + seq![unit];
    assert(plus.len() > 3);
    assert(plus != "now"@);
    assert(plus.take(4) =~= "now+"@);
    assert(plus.take(4) != "now-"@) by {
        assert(plus.take(4)[3] != "now-"@[3]);
    }
    assert(plus.skip(4) =~= offset);
    assert(relative_sign(plus) == Some(1int));
    assert(duration_seconds(plus.skip(4)) == Ok::<int, TimeError>(n * k));
    assert(((1int) * (n * k)) as i64 == (n * k) as i64);
    assert(time_at(plus, now) == match shifted(now, (n * k) as i64) {
        Some(t) => Ok::<Timestamp, TimeError>(t),
        None => Err(TimeError::OutOfRange),
    });
}

} // verus!

verus! {

// ---------------------------------------------------------------------------
// What a log entry holds
// ---------------------------------------------------------------------------

/// The value a Railway entry keeps under `key`: `timestamp`, `message` and
/// `severity` from the log line, `serviceId` and `deploymentId` from its `tags`
/// object, when present and not `null`; nothing under any other key.
pub open spec fn railway_field(line: Json, key: Seq<char>) -> Option<Json> {
    if key == "timestamp"@ || key == "message"@ || key == "severity"@ {
        non_null(json_get(line, key))
    } else if key == "serviceId"@ || key == "deploymentId"@ {
        match json_get(line, "tags"@) {
            Some(tags) => if tags is Object {
                non_null(json_get(tags, key))
            } else {
                None
            },
            None => None,
        }
    } else {
        None
    }
}

/// A Railway entry holds exactly the kept fields of its log line that are present
/// and not `null`, each with the line's value.
pub proof fn law_railway_entry_fields(line: Json)
    ensures
        forall|key: Seq<char>| #[trigger] railway_entry(line).contains_key(key) <==> railway_field(line, key) is Some,
        forall|key: Seq<char>|
            #[trigger] railway_entry(line).contains_key(key) ==> railway_entry(line)[key] == railway_field(line, key)->0,
{
    reveal_strlit("timestamp");
    reveal_strlit("message");
    reveal_strlit("severity");
    reveal_strlit("serviceId");
    reveal_strlit("deploymentId");
    reveal_strlit("tags");
    let names = seq!["timestamp"@, "message"@, "severity"@, "serviceId"@, "deploymentId"@];
    assert forall|a: int, b: int| 0 <= a < b < 5 implies names[a] != names[b] by {
        if names[a].len() == names[b].len() {
            assert(names[a][0] != names[b][0]);
        }
    }
    let m = railway_entry(line);
    let target = Map::new(|k: Seq<char>| railway_field(line, k) is Some, |k: Seq<char>| railway_field(line, k)->0);
    assert(names[0] != names[3] && names[1] != names[3] && names[2] != names[3]);
    assert(names[0] != names[4] && names[1] != names[4] && names[2] != names[4] && names[3] != names[4]);
    assert(names[0] != names[1] && names[0] != names[2] && names[1] != names[2]);
    assert(m =~= target);
}

/// The entry of a frame's row, when the first `columns` column names are distinct,
/// holds under each column's name the column's cell in that row when the cell is
/// there and not `null`, and holds nothing else.
pub proof fn law_row_entry_columns(frame: GrafanaFrame, row: int, columns: nat)
    requires
        columns <= frame.schema.fields@.len(),
        forall|a: int, b: int|
            0 <= a < b < columns ==> column_name(frame.schema.fields@[a], a as nat) != column_name(
                frame.schema.fields@[b],
                b as nat,
            ),
    ensures
        forall|c: int|
            #![trigger cell(frame, c, row)]
            0 <= c < columns ==> {
                &&& row_entry(frame, row, columns).contains_key(column_name(frame.schema.fields@[c], c as nat))
                    == (cell(frame, c, row) is Some)
                &&& cell(frame, c, row) is Some ==> row_entry(frame, row, columns)[column_name(
                    frame.schema.fields@[c],
                    c as nat,
                )] == cell(frame, c, row)->0
            },
        forall|k: Seq<char>|
            #[trigger] row_entry(frame, row, columns).contains_key(k) ==> exists|c: int|
                0 <= c < columns && k == column_name(frame.schema.fields@[c], c as nat) && cell(frame, c, row) is Some,
    decreases columns,
{
    if columns > 0 {
        let c0 = (columns - 1) as nat;
        law_row_entry_columns(frame, row, c0);
        let prev = row_entry(frame, row, c0);
        let k0 = column_name(frame.schema.fields@[c0 as int], c0);
        assert(row_entry(frame, row, columns) == put(prev, k0, cell(frame, c0 as int, row)));
        assert forall|c: int| 0 <= c < c0 implies column_name(frame.schema.fields@[c], c as nat) != k0 by {}
        assert forall|k: Seq<char>| #[trigger] row_entry(frame, row, columns).contains_key(k) implies exists|c: int|
            0 <= c < columns && k == column_name(frame.schema.fields@[c], c as nat) && cell(frame, c, row) is Some by {
            if k != k0 || cell(frame, c0 as int, row) is None {
                assert(prev.contains_key(k));
            } else {
                assert(k == column_name(frame.schema.fields@[c0 as int], c0) && cell(frame, c0 as int, row) is Some);
            }
        }
    }
}

// ---------------------------------------------------------------------------
// Validation
// ---------------------------------------------------------------------------

/// The string fields of a backend, in the order that validation checks them.
pub open spec fn checked_fields(b: BackendView) -> Seq<(Field, Option<StringValueView>)> {
    match b {
        BackendView::VictoriaLogs { url, datasource_uid, token, scope_filter } => seq![
            (Field::Url, Some(url)),
            (Field::DatasourceUid, Some(datasource_uid)),
            (Field::Token, Some(token)),
            (Field::ScopeFilter, scope_filter),
        ],
        BackendView::Railway { environment_id, service_id, token, .. } => seq![
            (Field::EnvironmentId, Some(environment_id)),
            (Field::ServiceId, service_id),
            (Field::Token, Some(token)),
        ],
    }
}

/// When the Railway scope agrees with `service_id` and the fields before the `i`-th
/// are valid, an invalid `i`-th field is the problem reported: its name, as
/// ``invalid `<field>` ``, and the value's own error under it.
pub proof fn law_first_invalid_field_is_reported(b: BackendView, i: int)
    requires
        0 <= i < checked_fields(b).len(),
        b matches BackendView::Railway { scope, service_id, .. } ==> (scope == RailwayScope::Service
            <==> service_id is Some),
        forall|j: int|
            0 <= j < i ==> opt_field_problem(checked_fields(b)[j].0, checked_fields(b)[j].1) is None,
        opt_field_problem(checked_fields(b)[i].0, checked_fields(b)[i].1) is Some,
    ensures
        backend_problem(b) == opt_field_problem(checked_fields(b)[i].0, checked_fields(b)[i].1),
        backend_problem(b) matches Some(BackendProblemView::Field { field, error }) && field == checked_fields(b)[i].0
            && backend_problem_message(backend_problem(b)->0) == "invalid `"@ + field_name(field) + "`"@,
{
    let fs = checked_fields(b);
    if i > 0 {
        assert(opt_field_problem(fs[0].0, fs[0].1) is None);
    }
    if i > 1 {
        assert(opt_field_problem(fs[1].0, fs[1].1) is None);
    }
    if i > 2 {
        assert(opt_field_problem(fs[2].0, fs[2].1) is None);
    }
}

} // verus!

verus! {

// ---------------------------------------------------------------------------
// The Railway window
// ---------------------------------------------------------------------------

proof fn lemma_json_field_at(m: Seq<(Seq<char>, Json)>, i: int, key: Seq<char>)
    requires
        0 <= i < m.len(),
        m[i].0 == key,
        forall|j: int| 0 <= j < i ==> m[j].0 != key,
    ensures
        json_field(m, key) == Some(m[i].1),
    decreases i,
{
    if i > 0 {
        lemma_json_field_at(m.drop_first(), i - 1, key);
    }
}

/// The Railway request asks for the logs of the resolved window: from its start
/// (`beforeDate`) up to its end (`anchorDate` and `afterDate`), with the scoped
/// filter as it is.
pub proof fn law_railway_window_follows_the_range(
    environment_id: Seq<char>,
    filter: Seq<char>,
    from: Timestamp,
    to: Timestamp,
)
    ensures
        railway_body(environment_id, filter, from, to) matches Json::Object(m) && json_field(m, "variables"@) matches Some(
            Json::Object(v),
        ) && json_field(v, "beforeDate"@) == Some(Json::Str(chrono_rfc3339_secs(from.secs, from.nanos)))
            && json_field(v, "anchorDate"@) == Some(Json::Str(chrono_rfc3339_secs(to.secs, to.nanos)))
            && json_field(v, "afterDate"@) == Some(Json::Str(chrono_rfc3339_secs(to.secs, to.nanos)))
            && json_field(v, "filter"@) == Some(Json::Str(filter)),
{
    reveal_strlit("query");
    reveal_strlit("variables");
    reveal_strlit("afterDate");
    reveal_strlit("afterLimit");
    reveal_strlit("anchorDate");
    reveal_strlit("beforeDate");
    reveal_strlit("beforeLimit");
    reveal_strlit("environmentId");
    reveal_strlit("filter");
    let m = match railway_body(environment_id, filter, from, to) {
        Json::Object(m) => m,
        _ => Seq::empty(),
    };
    assert(m[0].0 != "variables"@) by {
        assert(m[0].0[0] != "variables"@[0]);
    }
    lemma_json_field_at(m, 1, "variables"@);
    let v = match m[1].1 {
        Json::Object(v) => v,
        _ => Seq::empty(),
    };
    assert(v[0].0 == "afterDate"@);
    lemma_json_field_at(v, 0, "afterDate"@);
    assert forall|j: int| 0 <= j < 2 implies v[j].0 != "anchorDate"@ by {
        assert(v[j].0[1] != "anchorDate"@[1]);
    }
    lemma_json_field_at(v, 2, "anchorDate"@);
    assert forall|j: int| 0 <= j < 3 implies v[j].0 != "beforeDate"@ by {
        assert(v[j].0[0] != "beforeDate"@[0]);
    }
    lemma_json_field_at(v, 3, "beforeDate"@);
    assert forall|j: int| 0 <= j < 6 implies v[j].0 != "filter"@ by {
        assert(v[j].0[0] != "filter"@[0]);
    }
    lemma_json_field_at(v, 6, "filter"@);
}

} // verus!

verus! {

// ---------------------------------------------------------------------------
// Flattening a Grafana reply
// ---------------------------------------------------------------------------

/// The entries of frames are those of each frame in turn: one per row that has a
/// value, rows in order.
pub proof fn law_frames_entries_flatten(frames: Seq<GrafanaFrame>)
    ensures
        frames_entries(frames) == frames.map_values(|f: GrafanaFrame| frame_entries(f, row_count(f))).flatten(),
    decreases frames.len(),
{
    let parts = frames.map_values(|f: GrafanaFrame| frame_entries(f, row_count(f)));
    if frames.len() > 0 {
        law_frames_entries_flatten(frames.drop_last());
        assert(parts.drop_last() =~= frames.drop_last().map_values(|f: GrafanaFrame| frame_entries(f, row_count(f))));
        parts.drop_last().lemma_flatten_and_flatten_alt_are_equivalent();
    }
    parts.lemma_flatten_and_flatten_alt_are_equivalent();
}

/// The entries of a Grafana reply are those of its results in turn, in the order of
/// their names, each result's being those of its frames in turn.
pub proof fn law_grafana_entries_flatten(results: Seq<(Seq<char>, crate::grafana::GrafanaResult)>)
    ensures
        results_entries(results) == results.map_values(
            |r: (Seq<char>, crate::grafana::GrafanaResult)| frames_entries(r.1.frames@),
        ).flatten(),
    decreases results.len(),
{
    let parts = results.map_values(|r: (Seq<char>, crate::grafana::GrafanaResult)| frames_entries(r.1.frames@));
    if results.len() > 0 {
        law_grafana_entries_flatten(results.drop_last());
        assert(parts.drop_last() =~= results.drop_last().map_values(
            |r: (Seq<char>, crate::grafana::GrafanaResult)| frames_entries(r.1.frames@),
        ));
        parts.drop_last().lemma_flatten_and_flatten_alt_are_equivalent();
    }
    parts.lemma_flatten_and_flatten_alt_are_equivalent();
}

} // verus!

verus! {

// ---------------------------------------------------------------------------
// The Railway GraphQL document
// ---------------------------------------------------------------------------

/// The Railway request asks for `environmentLogs` with the filter it sends: its
/// GraphQL document is the `EnvironmentLogs` query, which declares the
/// `$filter: String` variable and passes it as `filter: $filter` to
/// `environmentLogs` along with the window and the limits, and the `filter` variable
/// is the scoped filter itself.
pub proof fn law_railway_query_applies_the_filter(
    environment_id: Seq<char>,
    filter: Seq<char>,
    from: Timestamp,
    to: Timestamp,
)
    ensures
        railway_body(environment_id, filter, from, to) is Object,
        ({
            let m = railway_body(environment_id, filter, from, to)->Object_0;
            let document = json_field(m, "query"@)->0->Str_0;
            let v = json_field(m, "variables"@)->0->Object_0;
            &&& json_field(m, "query"@) matches Some(Json::Str(_))
            &&& document == "query EnvironmentLogs($environmentId: String!, $filter: String, $beforeDate: String!, $anchorDate: String!, $afterDate: String!, $beforeLimit: Int!, $afterLimit: Int!) {\n  environmentLogs(environmentId: $environmentId, filter: $filter, beforeDate: $beforeDate, anchorDate: $anchorDate, afterDate: $afterDate, beforeLimit: $beforeLimit, afterLimit: $afterLimit) {\n    timestamp\n    message\n    severity\n    tags {\n      serviceId\n      deploymentId\n    }\n  }\n}"@
            &&& document.take(22) == "query EnvironmentLogs("@
            &&& contains_at(document, "$filter: String"@)
            &&& contains_at(document, "environmentLogs(environmentId: $environmentId, filter: $filter,"@)
            &&& json_field(m, "variables"@) matches Some(Json::Object(_))
            &&& json_field(v, "filter"@) == Some(Json::Str(filter))
            &&& json_field(v, "environmentId"@) == Some(Json::Str(environment_id))
        }),
{
    reveal_strlit("query");
    reveal_strlit("query EnvironmentLogs(");
    reveal_strlit("$filter: String");
    reveal_strlit("environmentLogs(environmentId: $environmentId, filter: $filter,");
    reveal_strlit("environmentId");
    reveal_strlit("filter");
    reveal_strlit("afterDate");
    reveal_strlit("afterLimit");
    reveal_strlit("anchorDate");
    reveal_strlit("beforeDate");
    reveal_strlit("beforeLimit");
    reveal_strlit(
        "query EnvironmentLogs($environmentId: String!, $filter: String, $beforeDate: String!, $anchorDate: String!, $afterDate: String!, $beforeLimit: Int!, $afterLimit: Int!) {\n  environmentLogs(environmentId: $environmentId, filter: $filter, beforeDate: $beforeDate, anchorDate: $anchorDate, afterDate: $afterDate, beforeLimit: $beforeLimit, afterLimit: $afterLimit) {\n    timestamp\n    message\n    severity\n    tags {\n      serviceId\n      deploymentId\n    }\n  }\n}",
    );
    let m = match railway_body(environment_id, filter, from, to) {
        Json::Object(m) => m,
        _ => Seq::empty(),
    };
    lemma_json_field_at(m, 0, "query"@);
    let document = crate::railway::environment_logs_query();
    assert(document.take(22) =~= "query EnvironmentLogs("@);
    let p1 = "$filter: String"@;
    assert(document.subrange(47, 47 + p1.len() as int) =~= p1);
    let p2 = "environmentLogs(environmentId: $environmentId, filter: $filter,"@;
    assert(document.subrange(172, 172 + p2.len() as int) =~= p2);
    law_railway_window_follows_the_range(environment_id, filter, from, to);
    reveal_strlit("variables");
    assert(m[0].0 != "variables"@) by {
        assert(m[0].0[0] != "variables"@[0]);
    }
    lemma_json_field_at(m, 1, "variables"@);
    let v = match m[1].1 {
        Json::Object(v) => v,
        _ => Seq::empty(),
    };
    assert forall|j: int| 0 <= j < 5 implies v[j].0 != "environmentId"@ by {
        assert(v[j].0[0] != "environmentId"@[0]);
    }
    lemma_json_field_at(v, 5, "environmentId"@);
}

// ---------------------------------------------------------------------------
// GraphQL errors
// ---------------------------------------------------------------------------

/// A Railway reply reports GraphQL errors exactly when its `errors` member is a
/// non-empty array, and then those are the errors; nothing else in the reply, such
/// as its `data` member (even `null`), matters.
pub proof fn law_graphql_errors_are_reported(response: Json, other: Json)
    ensures
        (crate::railway::graphql_errors(response) is Some) == (json_get(response, "errors"@) matches Some(
            Json::Array(a),
        ) && a.len() > 0),
        crate::railway::graphql_errors(response) is Some ==> crate::railway::graphql_errors(response) == json_get(
            response,
            "errors"@,
        ),
        json_get(response, "errors"@) == json_get(other, "errors"@) ==> crate::railway::graphql_errors(response)
            == crate::railway::graphql_errors(other),
{
}

// ---------------------------------------------------------------------------
// Rows of a Grafana frame
// ---------------------------------------------------------------------------

proof fn lemma_longest(values: Seq<Vec<crate::json::JsonValue>>, k: nat)
    requires
        k <= values.len(),
    ensures
        forall|c: int| 0 <= c < k ==> values[c]@.len() <= crate::grafana::longest(values, k),
        k == 0 ==> crate::grafana::longest(values, k) == 0,
        k > 0 ==> exists|c: int| 0 <= c < k && values[c]@.len() == crate::grafana::longest(values, k),
    decreases k,
{
    if k > 0 {
        lemma_longest(values, (k - 1) as nat);
        if k > 1 {
            let c = choose|c: int| 0 <= c < k - 1 && values[c]@.len() == crate::grafana::longest(values, (k - 1) as nat);
            assert(0 <= c < k);
        }
    }
}

/// A frame has as many rows as its longest column: no column is longer, and some
/// column (if there is any) is that long.
pub proof fn law_row_count_is_the_longest_column(frame: GrafanaFrame)
    ensures
        forall|c: int| 0 <= c < frame.data.values@.len() ==> frame.data.values@[c]@.len() <= row_count(frame),
        frame.data.values@.len() == 0 ==> row_count(frame) == 0,
        frame.data.values@.len() > 0 ==> exists|c: int|
            0 <= c < frame.data.values@.len() && frame.data.values@[c]@.len() == row_count(frame),
{
    lemma_longest(frame.data.values@, frame.data.values@.len());
}

proof fn lemma_row_entry_has_cell(frame: GrafanaFrame, row: int, columns: nat, c: int)
    requires
        0 <= c < columns <= frame.schema.fields@.len(),
        cell(frame, c, row) is Some,
    ensures
        row_entry(frame, row, columns) != Map::<Seq<char>, Json>::empty(),
        row_entry(frame, row, columns).contains_key(column_name(frame.schema.fields@[c], c as nat)),
    decreases columns,
{
    let k = column_name(frame.schema.fields@[c], c as nat);
    let c0 = (columns - 1) as nat;
    if c < c0 {
        lemma_row_entry_has_cell(frame, row, c0, c);
    }
    assert(row_entry(frame, row, columns).contains_key(k));
    assert(!Map::<Seq<char>, Json>::empty().contains_key(k));
}

/// Row `r` of a frame has a value in one of its schema's columns.
pub open spec fn row_has_value(frame: GrafanaFrame, r: int) -> bool {
    exists|c: int| 0 <= c < frame.schema.fields@.len() && #[trigger] cell(frame, c, r) is Some
}

/// Every row of a frame that has a value in one of its schema's columns gives one
/// entry, in row order: when every row has one, there are as many entries as the
/// frame has rows, the `r`-th being the entry of row `r`.
pub proof fn law_every_row_with_a_value_gives_an_entry(frame: GrafanaFrame, rows: nat)
    requires
        forall|r: int| 0 <= r < rows ==> #[trigger] row_has_value(frame, r),
    ensures
        frame_entries(frame, rows).len() == rows,
        forall|r: int| 0 <= r < rows ==> #[trigger] frame_entries(frame, rows)[r] == row_entry(frame, r, frame.schema.fields@.len()),
    decreases rows,
{
    if rows > 0 {
        let r = (rows - 1) as nat;
        law_every_row_with_a_value_gives_an_entry(frame, r);
        assert(row_has_value(frame, r as int));
        let c = choose|c: int| 0 <= c < frame.schema.fields@.len() && #[trigger] cell(frame, c, r as int) is Some;
        lemma_row_entry_has_cell(frame, r as int, frame.schema.fields@.len(), c);
    }
}

// ---------------------------------------------------------------------------
// Structure of a secret source
// ---------------------------------------------------------------------------

/// A secret source is malformed exactly when it names an `op_account` without an
/// `op` reference, or names neither an environment variable nor a reference: a
/// variable with a 1Password fallback, a variable alone and a reference alone are
/// all well formed.
pub proof fn law_source_structure(s: SourceView)
    ensures
        (crate::config_value::source_problem(s) is Some) == ((s.op is None && s.op_account is Some) || (s.env is None
            && s.op is None)),
        s.op is Some ==> crate::config_value::source_problem(s) is None,
        s.env is Some && s.op_account is None ==> crate::config_value::source_problem(s) is None,
{
}

// ---------------------------------------------------------------------------
// Reply statuses
// ---------------------------------------------------------------------------

/// A reply is read exactly when its status is in the 2xx class; any other status,
/// 4xx included, is an error that names the backend and the status.
pub proof fn law_only_2xx_replies_are_read(kind: crate::BackendKind, status: u16, body: Seq<char>)
    ensures
        (crate::status_outcome(kind, status, body) is None) == (200 <= status && status <= 299),
        !(200 <= status && status <= 299) ==> (crate::status_outcome(kind, status, body) matches Some(
            crate::QueryErrorView::Status { kind: k, status: s, .. },
        ) && k == kind && s == status),
{
}

} // verus!
