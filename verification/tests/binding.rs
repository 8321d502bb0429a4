use serde_json::Value;

use cc_panes::bind_resume::{bind_resume_id, BindRequest, BIND_MAX_ATTEMPTS, BIND_RETRY_DELAY_MS};
use cc_panes::persist_binding::{persist_resume_binding, HistoryRequest, PersistRun};
use cc_panes::resume_payload::{
    history_updated_payload, launch_record_conflicts, resume_id_assigned_elsewhere, HistoryReply,
    LaunchRecord, ResumeIdDetectedPayload,
};

/// A row of an in-memory launch history.
#[derive(Clone, Debug, Default, PartialEq)]
struct Row {
    id: i64,
    launch_id: String,
    project_name: String,
    project_path: String,
    pty_session_id: Option<String>,
    resume_session_id: Option<String>,
    resume_source: Option<String>,
    cli_tool: String,
    runtime_kind: String,
    wsl_distro: Option<String>,
    launch_cwd: Option<String>,
    workspace_path: Option<String>,
}

/// An in-memory launch history that performs the requests of a run.
#[derive(Default)]
struct History {
    rows: Vec<Row>,
    slept: Vec<u64>,
    /// Which requests fail instead of being performed.
    failing: Vec<&'static str>,
    log: Vec<&'static str>,
}

fn text(value: Option<&str>) -> Option<String> {
    value.map(|v| v.to_string())
}

fn record(row: &Row) -> LaunchRecord {
    LaunchRecord {
        id: row.id,
        pty_session_id: row.pty_session_id.clone(),
        resume_session_id: row.resume_session_id.clone(),
    }
}

impl History {
    fn add(&mut self, launch_id: &str, pty_session_id: Option<&str>) -> i64 {
        let id = self.rows.len() as i64 + 1;
        self.rows.push(Row {
            id,
            launch_id: launch_id.to_string(),
            project_name: "project".to_string(),
            project_path: "/mnt/work/project".to_string(),
            pty_session_id: text(pty_session_id),
            cli_tool: "codex".to_string(),
            runtime_kind: "wsl".to_string(),
            wsl_distro: Some("Ubuntu".to_string()),
            launch_cwd: Some("/mnt/work/project".to_string()),
            workspace_path: Some("/mnt/work/project".to_string()),
            ..Row::default()
        });
        id
    }

    fn by_launch(&self, launch_id: &str) -> Option<Row> {
        self.rows.iter().find(|r| r.launch_id == launch_id).cloned()
    }

    fn by_pty(&self, pty: &str) -> Option<Row> {
        self.rows.iter().find(|r| r.pty_session_id.as_deref() == Some(pty)).cloned()
    }

    fn fails(&mut self, name: &'static str) -> bool {
        self.log.push(name);
        self.failing.contains(&name)
    }

    fn perform(&mut self, request: HistoryRequest<'_>) -> HistoryReply {
        match request {
            HistoryRequest::UpdateResumeSessionByPty { session_id, resume_session_id, source } => {
                if self.fails("update_by_pty") {
                    return HistoryReply::Failed;
                }
                match self
                    .rows
                    .iter_mut()
                    .find(|r| r.pty_session_id.as_deref() == Some(session_id))
                {
                    Some(row) => {
                        row.resume_session_id = Some(resume_session_id.to_string());
                        row.resume_source = Some(source.to_string());
                        HistoryReply::Row(row.id)
                    }
                    None => HistoryReply::Missing,
                }
            }
            HistoryRequest::FindByLaunchId { launch_id } => {
                if self.fails("find_by_launch") {
                    return HistoryReply::Failed;
                }
                match self.by_launch(launch_id) {
                    Some(row) => HistoryReply::Record(record(&row)),
                    None => HistoryReply::Missing,
                }
            }
            HistoryRequest::UpdateSessionStarted {
                launch_id,
                session_id,
                resume_session_id,
                cli_tool,
                runtime_kind,
                wsl_distro,
                launch_cwd,
            } => {
                if self.fails("update_by_launch") {
                    return HistoryReply::Failed;
                }
                assert_eq!(launch_cwd, None);
                match self.rows.iter_mut().find(|r| r.launch_id == launch_id) {
                    Some(row) => {
                        row.pty_session_id = Some(session_id.to_string());
                        row.resume_session_id = Some(resume_session_id.to_string());
                        row.cli_tool = cli_tool.to_string();
                        row.runtime_kind = runtime_kind.to_string();
                        row.wsl_distro = text(wsl_distro);
                        HistoryReply::Row(row.id)
                    }
                    None => HistoryReply::Missing,
                }
            }
            HistoryRequest::UpdateResumeSource { record_id, source } => {
                if self.fails("update_source") {
                    return HistoryReply::Failed;
                }
                let row = self.rows.iter_mut().find(|r| r.id == record_id).expect("row");
                row.resume_source = Some(source.to_string());
                HistoryReply::Done
            }
            HistoryRequest::Sleep { attempt, millis } => {
                self.log.push("sleep");
                assert_eq!(attempt as usize, self.slept.len());
                self.slept.push(millis);
                HistoryReply::Done
            }
            HistoryRequest::UpsertSessionStarted {
                launch_id,
                session_id,
                resume_session_id,
                cli_tool,
                runtime_kind,
                wsl_distro,
                launch_cwd,
                project_path,
                project_name,
                workspace_path,
            } => {
                if self.fails("upsert") {
                    return HistoryReply::Failed;
                }
                let id = self.rows.len() as i64 + 1;
                self.rows.push(Row {
                    id,
                    launch_id: launch_id.to_string(),
                    project_name,
                    project_path: project_path.to_string(),
                    pty_session_id: Some(session_id.to_string()),
                    resume_session_id: Some(resume_session_id.to_string()),
                    resume_source: None,
                    cli_tool: cli_tool.to_string(),
                    runtime_kind: runtime_kind.to_string(),
                    wsl_distro: text(wsl_distro),
                    launch_cwd: text(launch_cwd),
                    workspace_path: text(workspace_path),
                });
                HistoryReply::Row(id)
            }
            HistoryRequest::Finished { outcome: _ } => unreachable!("nothing to perform"),
        }
    }

    fn drive(&mut self, mut run: PersistRun) -> Option<i64> {
        loop {
            let reply = match run.request() {
                HistoryRequest::Finished { outcome } => return outcome,
                request => self.perform(request),
            };
            run.advance(reply);
        }
    }

    fn persist_once(&mut self, payload: ResumeIdDetectedPayload) -> Option<i64> {
        self.drive(persist_resume_binding(payload, 1, 0))
    }
}

fn payload() -> ResumeIdDetectedPayload {
    ResumeIdDetectedPayload {
        session_id: "pty-1".to_string(),
        resume_session_id: "resume-1".to_string(),
        source: "osc-title".to_string(),
        cli_tool: Some("codex".to_string()),
        runtime_kind: Some("wsl".to_string()),
        launch_id: Some("launch-1".to_string()),
        project_path: Some("/mnt/work/project".to_string()),
        workspace_path: Some("/mnt/work/project".to_string()),
        wsl_distro: Some("Ubuntu".to_string()),
    }
}

fn bare_payload() -> ResumeIdDetectedPayload {
    ResumeIdDetectedPayload {
        session_id: "pty-2".to_string(),
        resume_session_id: "resume-def".to_string(),
        source: "osc-title".to_string(),
        cli_tool: None,
        runtime_kind: None,
        launch_id: None,
        project_path: None,
        workspace_path: None,
        wsl_distro: None,
    }
}

fn announced(record_id: Value) -> Value {
    let mut object = serde_json::Map::new();
    object.insert("source".to_string(), Value::String("resume-binding".to_string()));
    object.insert("recordId".to_string(), record_id);
    object.insert("ptySessionId".to_string(), Value::String("pty-1".to_string()));
    object.insert("resumeSessionId".to_string(), Value::String("resume-1".to_string()));
    object.insert("resumeSource".to_string(), Value::String("osc-title".to_string()));
    Value::Object(object)
}

#[test]
fn binding_matches_existing_record_by_pty_session_id() {
    let mut service = History::default();
    service.add("launch-1", Some("pty-1"));

    let record_id = service.persist_once(payload()).expect("record id");
    let record = service.by_pty("pty-1").expect("record");
    assert_eq!(record.id, record_id);
    assert_eq!(record.resume_session_id.as_deref(), Some("resume-1"));
    assert_eq!(record.resume_source.as_deref(), Some("osc-title"));
    assert_eq!(service.log, vec!["update_by_pty"]);
}

#[test]
fn binding_matches_existing_record_by_launch_id() {
    let mut service = History::default();
    service.add("launch-1", None);

    let record_id = service.persist_once(payload()).expect("record id");
    let record = service.by_launch("launch-1").expect("record");
    assert_eq!(record.id, record_id);
    assert_eq!(record.pty_session_id.as_deref(), Some("pty-1"));
    assert_eq!(record.resume_session_id.as_deref(), Some("resume-1"));
    assert_eq!(record.resume_source.as_deref(), Some("osc-title"));
}

#[test]
fn binding_upserts_missing_history_record_and_keeps_event_payload() {
    let mut service = History::default();

    let record_id = service.persist_once(payload()).expect("record id");
    let record = service.by_launch("launch-1").expect("inserted record");
    assert_eq!(record.id, record_id);
    assert_eq!(record.project_path, "/mnt/work/project");
    assert_eq!(record.project_name, "project");
    assert_eq!(record.pty_session_id.as_deref(), Some("pty-1"));
    assert_eq!(record.resume_session_id.as_deref(), Some("resume-1"));
    assert_eq!(record.cli_tool, "codex");
    assert_eq!(record.runtime_kind, "wsl");
    assert_eq!(record.wsl_distro.as_deref(), Some("Ubuntu"));
    assert_eq!(record.resume_source.as_deref(), Some("osc-title"));
    assert_eq!(
        history_updated_payload(Some(record_id), &payload()),
        announced(Value::from(record_id))
    );
}

#[test]
fn binding_does_not_overwrite_other_pty_with_different_resume_id() {
    let mut service = History::default();
    service.add("launch-1", Some("pty-other"));
    service.rows[0].resume_session_id = Some("resume-other".to_string());

    assert!(service.persist_once(payload()).is_none());
    let record = service.by_launch("launch-1").expect("record");
    assert_eq!(record.pty_session_id.as_deref(), Some("pty-other"));
    assert_eq!(record.resume_session_id.as_deref(), Some("resume-other"));
    assert_eq!(service.log, vec!["update_by_pty", "find_by_launch"]);
}

#[test]
fn launch_conflict_needs_other_session_and_other_resume_id() {
    let found = |pty: Option<&str>, resume: Option<&str>| {
        HistoryReply::Record(LaunchRecord {
            id: 7,
            pty_session_id: text(pty),
            resume_session_id: text(resume),
        })
    };
    let p = payload();
    assert!(launch_record_conflicts(&found(Some("pty-other"), Some("resume-other")), &p));
    assert!(launch_record_conflicts(&found(None, Some("resume-other")), &p));
    assert!(!launch_record_conflicts(&found(Some("pty-1"), Some("resume-other")), &p));
    assert!(!launch_record_conflicts(&found(Some("pty-other"), Some("resume-1")), &p));
    assert!(!launch_record_conflicts(&found(Some("pty-other"), None), &p));
    assert!(!launch_record_conflicts(&HistoryReply::Missing, &p));
    assert!(!launch_record_conflicts(&HistoryReply::Failed, &p));

    assert!(resume_id_assigned_elsewhere(&found(Some("pty-other"), None), &p));
    assert!(resume_id_assigned_elsewhere(&found(None, Some("resume-1")), &p));
    assert!(!resume_id_assigned_elsewhere(&found(Some("pty-1"), Some("resume-1")), &p));
    assert!(!resume_id_assigned_elsewhere(&HistoryReply::Missing, &p));
    assert!(!resume_id_assigned_elsewhere(&HistoryReply::Failed, &p));
}

#[test]
fn event_payload_without_record_holds_null() {
    assert_eq!(history_updated_payload(None, &payload()), announced(Value::Null));
    assert_eq!(history_updated_payload(Some(-3), &payload()), announced(Value::from(-3)));
}

#[test]
fn bare_payload_is_inserted_with_defaults() {
    let mut service = History::default();
    let id = service.drive(persist_resume_binding(bare_payload(), 0, 5)).expect("record id");
    assert_eq!(
        service.rows,
        vec![Row {
            id,
            launch_id: "pty-2".to_string(),
            project_name: "unknown".to_string(),
            project_path: String::new(),
            pty_session_id: Some("pty-2".to_string()),
            resume_session_id: Some("resume-def".to_string()),
            resume_source: Some("osc-title".to_string()),
            cli_tool: "none".to_string(),
            runtime_kind: "local".to_string(),
            wsl_distro: None,
            launch_cwd: None,
            workspace_path: None,
        }]
    );
    assert_eq!(service.log, vec!["update_by_pty", "upsert", "update_source"]);
}

#[test]
fn insertion_prefers_project_path_and_workspace_cwd() {
    let mut both = bare_payload();
    both.project_path = Some("C:\\work\\app\\".to_string());
    both.workspace_path = Some("/ws/root".to_string());
    let mut service = History::default();
    service.persist_once(both).expect("record id");
    assert_eq!(service.rows[0].project_path, "C:\\work\\app\\");
    assert_eq!(service.rows[0].project_name, "app");
    assert_eq!(service.rows[0].launch_cwd.as_deref(), Some("/ws/root"));
    assert_eq!(service.rows[0].workspace_path.as_deref(), Some("/ws/root"));

    let mut workspace_only = bare_payload();
    workspace_only.workspace_path = Some("/ws/root".to_string());
    let mut service = History::default();
    service.persist_once(workspace_only).expect("record id");
    assert_eq!(service.rows[0].project_path, "/ws/root");
    assert_eq!(service.rows[0].project_name, "root");

    let mut project_only = bare_payload();
    project_only.project_path = Some("/code/lib".to_string());
    let mut service = History::default();
    service.persist_once(project_only).expect("record id");
    assert_eq!(service.rows[0].launch_cwd.as_deref(), Some("/code/lib"));
    assert_eq!(service.rows[0].workspace_path, None);
}

#[test]
fn attempts_are_separated_by_pauses_and_end_in_an_insertion() {
    let mut service = History::default();
    let run = persist_resume_binding(payload(), 3, 500);
    assert_eq!(service.drive(run), Some(1));
    assert_eq!(service.slept, vec![500, 500]);
    assert_eq!(
        service.log,
        vec![
            "update_by_pty",
            "find_by_launch",
            "update_by_launch",
            "sleep",
            "update_by_pty",
            "find_by_launch",
            "update_by_launch",
            "sleep",
            "update_by_pty",
            "find_by_launch",
            "update_by_launch",
            "find_by_launch",
            "upsert",
            "update_source",
        ]
    );
}

#[test]
fn record_that_appears_during_a_pause_is_updated() {
    let mut service = History::default();
    let mut run = persist_resume_binding(payload(), 3, 1);
    let id = loop {
        let reply = match run.request() {
            HistoryRequest::Finished { outcome } => break outcome,
            HistoryRequest::Sleep { attempt, millis } => {
                assert_eq!((attempt, millis), (0, 1));
                service.add("launch-9", Some("pty-1"));
                HistoryReply::Done
            }
            request => service.perform(request),
        };
        run.advance(reply);
    };
    assert_eq!(id, Some(1));
    assert_eq!(service.rows.len(), 1);
    assert_eq!(service.rows[0].resume_session_id.as_deref(), Some("resume-1"));
    assert!(!service.log.contains(&"upsert"));
}

#[test]
fn failures_count_as_missing_records() {
    let mut service = History::default();
    service.failing = vec!["update_by_pty", "find_by_launch", "update_by_launch"];
    assert_eq!(service.persist_once(payload()), Some(1));

    let mut service = History::default();
    service.failing = vec!["upsert"];
    assert_eq!(service.persist_once(payload()), None);
    assert!(service.rows.is_empty());
}

#[test]
fn failure_to_record_the_source_keeps_the_binding() {
    let mut service = History::default();
    service.add("launch-1", None);
    service.failing = vec!["update_source"];
    assert_eq!(service.persist_once(payload()), Some(1));
    assert_eq!(service.rows[0].resume_session_id.as_deref(), Some("resume-1"));
    assert_eq!(service.rows[0].resume_source, None);
}

#[test]
fn repeated_binding_is_answered_by_its_first_update() {
    let mut service = History::default();
    let first = service.persist_once(payload());
    assert_eq!(first, Some(1));
    let rows = service.rows.clone();
    assert_eq!(rows[0].resume_source.as_deref(), Some("osc-title"));

    service.log.clear();
    assert_eq!(service.drive(persist_resume_binding(payload(), 3, 500)), first);
    assert_eq!(service.log, vec!["update_by_pty"]);
    assert_eq!(service.rows, rows);
}

#[test]
fn repeated_binding_makes_up_for_a_source_that_was_not_recorded() {
    let mut service = History::default();
    service.failing = vec!["find_by_launch", "update_by_launch", "update_source"];
    assert_eq!(service.persist_once(payload()), Some(1));
    let mut row = service.rows[0].clone();
    assert_eq!(row.pty_session_id.as_deref(), Some("pty-1"));
    assert_eq!(row.resume_session_id.as_deref(), Some("resume-1"));
    assert_eq!(row.resume_source, None);

    assert_eq!(service.persist_once(payload()), Some(1));
    row.resume_source = Some("osc-title".to_string());
    assert_eq!(service.rows, vec![row]);
}

#[test]
fn repeated_binding_without_launch_is_answered_by_its_first_update() {
    let mut service = History::default();
    assert_eq!(service.persist_once(bare_payload()), Some(1));
    let rows = service.rows.clone();
    assert_eq!(service.persist_once(bare_payload()), Some(1));
    assert_eq!(service.rows, rows);
}

#[test]
fn finished_run_stays_finished() {
    let mut run = persist_resume_binding(payload(), 1, 0);
    run.advance(HistoryReply::Row(4));
    run.advance(HistoryReply::Row(5));
    run.advance(HistoryReply::Failed);
    match run.request() {
        HistoryRequest::Finished { outcome } => assert_eq!(outcome, Some(4)),
        _ => panic!("the run is finished"),
    }
}

/// Drives a binding; gives back the warnings and the events.
fn bind(service: &mut History, payload: ResumeIdDetectedPayload) -> (Vec<i64>, Vec<Value>) {
    let mut warned = Vec::new();
    let mut emitted = Vec::new();
    let mut run = bind_resume_id(payload);
    loop {
        let reply = match run.request() {
            BindRequest::FindByResumeSessionId { resume_session_id } => {
                match service
                    .rows
                    .iter()
                    .find(|r| r.resume_session_id.as_deref() == Some(resume_session_id))
                {
                    Some(row) => HistoryReply::Record(record(row)),
                    None => HistoryReply::Missing,
                }
            }
            BindRequest::WarnAssigned { existing } => {
                warned.push(existing.id);
                HistoryReply::Done
            }
            BindRequest::History(request) => service.perform(request),
            BindRequest::Emit { event, record_id, payload } => {
                assert_eq!(event, "history-updated");
                assert_eq!(payload["recordId"], Value::from(record_id));
                emitted.push(payload);
                HistoryReply::Done
            }
            BindRequest::Finished => return (warned, emitted),
        };
        run.advance(reply);
    }
}

#[test]
fn binding_announces_the_record_once() {
    let mut service = History::default();
    service.add("launch-1", None);
    let (warned, emitted) = bind(&mut service, payload());
    assert!(warned.is_empty());
    assert_eq!(emitted, vec![announced(Value::from(1))]);
}

#[test]
fn refused_binding_is_announced_without_record() {
    let mut service = History::default();
    service.add("launch-1", Some("pty-other"));
    service.rows[0].resume_session_id = Some("resume-other".to_string());
    let (warned, emitted) = bind(&mut service, payload());
    assert!(warned.is_empty());
    assert_eq!(emitted, vec![announced(Value::Null)]);
}

#[test]
fn assigned_resume_id_is_warned_of_and_bound_all_the_same() {
    let mut service = History::default();
    service.add("launch-old", Some("pty-old"));
    service.rows[0].resume_session_id = Some("resume-1".to_string());
    service.add("launch-1", Some("pty-1"));
    let (warned, emitted) = bind(&mut service, payload());
    assert_eq!(warned, vec![1]);
    assert_eq!(emitted, vec![announced(Value::from(2))]);
    assert_eq!(service.rows[1].resume_session_id.as_deref(), Some("resume-1"));
}

#[test]
fn binding_makes_ten_attempts_half_a_second_apart() {
    assert_eq!(BIND_MAX_ATTEMPTS, 10);
    assert_eq!(BIND_RETRY_DELAY_MS, 500);
    let mut service = History::default();
    let (_, emitted) = bind(&mut service, payload());
    assert_eq!(service.slept, vec![500; 9]);
    assert_eq!(service.log.iter().filter(|name| **name == "update_by_pty").count(), 10);
    assert_eq!(emitted, vec![announced(Value::from(1))]);
}
