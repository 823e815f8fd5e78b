# gh_issue_import

The logic of `gh-issue-import`, a command-line importer of GitHub issues from YAML/JSON files
and remote repositories, as a library verified with Verus, with the program around it.

## Layout

- `src/` — the verified library.
  - `json.rs` — the JSON values the library reads and builds, with their mathematical view.
  - `text.rs` — string operations with specifications (trimming, case, search, order).
  - `clock.rs` — UTC timestamps from seconds since 1970, by calendar counting.
  - `error.rs` — error classes, exit codes and the error envelope.
  - `client.rs` — request paths, percent-encoding, and what an HTTP answer means.
  - `importer.rs` — issues files, repository references, milestones and the import log.
  - `config.rs`, `account.rs` — configured accounts and choosing the one a command runs as.
  - `commands/` — the decisions of each command; `import` and its inbox variant are state
    machines that ask for outside work (a listing, a creation, a search, a file) and take
    back its result.
  - `readme.rs` — the operating manual, as text and as data.
- `tests/` — tests of the library on concrete values.
- `app/` — the program: argument parsing, files, the token store, HTTP, and output.

The laws the library keeps (idempotent re-runs, dry runs that create nothing, explicit
accounts, the classes of HTTP failures, and others) are public proof functions in `src/`,
named `law_*`.
