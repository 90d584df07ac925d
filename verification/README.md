# mowz

`mowz` gives coding agents a small, bounded NDJSON view of production logs. It
queries a named VictoriaLogs (through Grafana) or Railway project from `.mowz.toml`
with backend-native syntax; results default to the last hour and 3 entries
(at most 100).

## Layout

- `src/` is the library, verified with Verus:
  - `config_value.rs`: literal and secret-source strings, and how they resolve
    (environment first, then `op read`);
  - `lib.rs`: the configuration, its validation, and the preparation of a query
    (limit, project, resolved values, request), then reading the reply;
  - `grafana.rs`, `railway.rs`: the requests each backend gets and how its reply
    becomes log entries;
  - `time_range.rs`: `now`, `now±<n><unit>` and RFC 3339 times;
  - `config_discovery.rs`: the search for the nearest configuration below home;
  - `http.rs`, `json.rs`, `strmap.rs`, `text.rs`: requests, JSON values, sorted
    string maps and string helpers;
  - `laws.rs`: properties that span several functions.
- `app/` is the command-line program: argument parsing, the configuration file,
  the environment, `op`, the clock and the network.
- `tests/` runs the library on concrete values.
