# jr

`jr` is a command-line client for Jira Cloud and Jira Service Management.
This crate holds its decisions as a library verified with Verus: each
public function states in its contract what it returns — where an outside
crate decides part of the result (a drawn table, a URL parser, a calendar,
Unicode lower-casing), what holds of every outcome, or a name for that outside
result — and Verus proves each body against that contract.

## Layout

- `src/` — the verified library.
  - `text`, `ordered` — character-level string operations, decimal numbers,
    lexicographic order and stable sorting, with their specifications.
  - `partial_match` — matching what a user typed against a list of names.
  - `jql` — value escaping, relative-date checks, date filter clauses,
    removing `ORDER BY`.
  - `duration` — worklog durations: validation and formatting.
  - `profile`, `profile_map`, `config` — profiles, configuration loading,
    legacy migration, the active profile and its URL.
  - `error` — the error type, its messages and exit codes.
  - `output` — output format, tables, terminal-safe text.
  - `types` — the data the Jira APIs return, as the commands read it.
  - `issue_list`, `component_filter` — the JQL `issue list` composes and the
    checks it makes before any request.
  - `transition`, `workflow` — moving issues and choosing resolutions.
  - `links`, `issue_view`, `mentions`, `user`, `queue`, `sprint`, `team`,
    `jsm_create`, `linked`, `cli` — the decisions of the other commands.
- `tests/` — tests run against the compiled library.
- `app/` — what touches the outside world: configuration files, JSON
  bodies, printing and error reporting, and story-point sums (floating
  point).

Calls into outside crates (`serde_json`, `comfy-table`, `colored`, `url`,
`reqwest`, `chrono`, the standard library's Unicode lower-casing) go through small
trusted functions whose doc comments say what their contracts claim.
