# depotd

The verified core of the depot daemon, written in Verus.

- `src/` is the library. Every function in it carries a contract that Verus proves:
  the text formats the daemon reads and writes (TOON documents from `boxr`, evidence
  manifests, pull request bodies, JSON payloads, templates, checklists and inboxes),
  the layout of the agni home, the names the store records its values under, and the
  decisions the daemon takes on what `gh`, `boxr`, `treehouse`, `git` and GitHub
  report. The `lemma_*` proof functions state the laws the library keeps, such as
  names that read back to the values they were written from, or a proof section that
  reads back after it is put into a pull request body.
- `src/adapters/` holds what depot reads from each program and service it drives.
- `src/reconcile.rs`, `src/supervisor.rs` and `src/dispatch.rs` hold the decisions of
  the daemon's reconcile steps as functions from what is recorded and observed to what
  is recorded and done next: a pull request observation, a worker launch, a resume, the
  run budget, liveness, the free worker slots and the order projects take turns in, and
  the dispatch rule checks, review tasks and merges. Each step takes what its outside
  work found as arguments; `app/` holds the adapters for that work, but no caller runs
  the steps, as the store of task records is not part of this build.
- `src/facts.rs` and `src/tasks.rs` model the task records and facts these decisions
  read, as plain values.
- `tests/` runs the library on concrete values.
- `app/` is the `depotd` program: the file system, processes, HTTP and TOML around the
  library.

Calls into outside crates go through a few trusted wrappers, each documented where it
is declared: `String::push` and `String::push_str`, `format!("{:?}")` on a string,
`serde_json::to_string` on a string, `serde_json` reading a field of a payload, and
`Duration::from_secs`.
