# cc_panes

Session plumbing of the panes application, verified with Verus.

- `src/model_capacity_detector.rs` spots the "model at capacity" message in
  terminal output, however the output was cut into pieces.
- `src/model_capacity_retry.rs` is the state of the one delayed retry that a
  session may have.
- `src/resume_payload.rs`, `src/persist_binding.rs` and `src/bind_resume.rs` bind
  a detected resume id to its launch history record. They say what to ask of the
  launch history next; the caller asks and hands back the answer.
- `src/persist_laws.rs` says what holds of every such run, and
  `src/launch_table.rs` what it leaves in a table that does what it is asked for.
- `src/project_name.rs` reads a project name off a path, `src/text.rs` relates
  texts to their UTF-8 bytes, and `src/json.rs` holds the calls into `serde_json`.
- `app/` adds the threads, the timers, the logging, the JSON of incoming events
  and the desktop front end.
