//! Writing a detected resume id to the launch history, one request at a time.
//!
//! The record is usually created by somebody else, and the resume id may be
//! detected first. So existing records are updated where they can be found, with
//! a pause between attempts; only when none has turned up is one inserted.

use vstd::prelude::*;

use crate::project_name::{derive_project_name, project_name};
use crate::resume_payload::{
    launch_is_taken, launch_record_conflicts, optional_text, HistoryReply, HistoryReplyView,
    PayloadView, ResumeIdDetectedPayload,
};

verus! {

/// What is asked of the launch history next, or that nothing is.
pub enum HistoryRequest<'a> {
    /// Set resume id and source of the record of a terminal session.
    UpdateResumeSessionByPty {
        session_id: &'a str,
        resume_session_id: &'a str,
        source: &'a str,
    },
    /// Look up the record of a launch.
    FindByLaunchId { launch_id: &'a str },
    /// Set terminal session and resume id of the record of a launch.
    UpdateSessionStarted {
        launch_id: &'a str,
        session_id: &'a str,
        resume_session_id: &'a str,
        cli_tool: &'a str,
        runtime_kind: &'a str,
        wsl_distro: Option<&'a str>,
        launch_cwd: Option<&'a str>,
    },
    /// Set the source of the resume id of a record.
    UpdateResumeSource { record_id: i64, source: &'a str },
    /// Wait: the attempt with this number (from 0) has found no record.
    Sleep { attempt: u32, millis: u64 },
    /// Insert the record of a launch, or update it if there is one.
    UpsertSessionStarted {
        launch_id: &'a str,
        session_id: &'a str,
        resume_session_id: &'a str,
        cli_tool: &'a str,
        runtime_kind: &'a str,
        wsl_distro: Option<&'a str>,
        launch_cwd: Option<&'a str>,
        project_path: &'a str,
        project_name: String,
        workspace_path: Option<&'a str>,
    },
    /// Nothing: the resume id is bound to this record, or was not bound.
    Finished { outcome: Option<i64> },
}

/// What a [`HistoryRequest`] says.
pub enum HistoryRequestView {
    UpdateResumeSessionByPty {
        session_id: Seq<char>,
        resume_session_id: Seq<char>,
        source: Seq<char>,
    },
    FindByLaunchId { launch_id: Seq<char> },
    UpdateSessionStarted {
        launch_id: Seq<char>,
        session_id: Seq<char>,
        resume_session_id: Seq<char>,
        cli_tool: Seq<char>,
        runtime_kind: Seq<char>,
        wsl_distro: Option<Seq<char>>,
        launch_cwd: Option<Seq<char>>,
    },
    UpdateResumeSource { record_id: i64, source: Seq<char> },
    Sleep { attempt: nat, millis: u64 },
    UpsertSessionStarted {
        launch_id: Seq<char>,
        session_id: Seq<char>,
        resume_session_id: Seq<char>,
        cli_tool: Seq<char>,
        runtime_kind: Seq<char>,
        wsl_distro: Option<Seq<char>>,
        launch_cwd: Option<Seq<char>>,
        project_path: Seq<char>,
        project_name: Seq<char>,
        workspace_path: Option<Seq<char>>,
    },
    Finished { outcome: Option<i64> },
}

/// The text of an optional string slice.
pub open spec fn optional_str(text: Option<&str>) -> Option<Seq<char>> {
    match text {
        Some(s) => Some(s@),
        None => None,
    }
}

impl<'a> View for HistoryRequest<'a> {
    type V = HistoryRequestView;

    open spec fn view(&self) -> HistoryRequestView {
        match *self {
            HistoryRequest::UpdateResumeSessionByPty { session_id, resume_session_id, source } =>
                HistoryRequestView::UpdateResumeSessionByPty {
                session_id: session_id@,
                resume_session_id: resume_session_id@,
                source: source@,
            },
            HistoryRequest::FindByLaunchId { launch_id } => HistoryRequestView::FindByLaunchId {
                launch_id: launch_id@,
            },
            HistoryRequest::UpdateSessionStarted {
                launch_id,
                session_id,
                resume_session_id,
                cli_tool,
                runtime_kind,
                wsl_distro,
                launch_cwd,
            } => HistoryRequestView::UpdateSessionStarted {
                launch_id: launch_id@,
                session_id: session_id@,
                resume_session_id: resume_session_id@,
                cli_tool: cli_tool@,
                runtime_kind: runtime_kind@,
                wsl_distro: optional_str(wsl_distro),
                launch_cwd: optional_str(launch_cwd),
            },
            HistoryRequest::UpdateResumeSource { record_id, source } =>
                HistoryRequestView::UpdateResumeSource { record_id, source: source@ },
            HistoryRequest::Sleep { attempt, millis } => HistoryRequestView::Sleep {
                attempt: attempt as nat,
                millis,
            },
            HistoryRequest::UpsertSessionStarted {
                launch_id,
                session_id,
                resume_session_id,
                cli_tool,
                runtime_kind,
                wsl_distro,
                launch_cwd,
                project_path,
                project_name,
                workspace_path,
            } => HistoryRequestView::UpsertSessionStarted {
                launch_id: launch_id@,
                session_id: session_id@,
                resume_session_id: resume_session_id@,
                cli_tool: cli_tool@,
                runtime_kind: runtime_kind@,
                wsl_distro: optional_str(wsl_distro),
                launch_cwd: optional_str(launch_cwd),
                project_path: project_path@,
                project_name: project_name@,
                workspace_path: optional_str(workspace_path),
            },
            HistoryRequest::Finished { outcome } => HistoryRequestView::Finished { outcome },
        }
    }
}

/// Where a run stands: what it has asked for and waits to be answered.
#[derive(Clone, Copy, Debug)]
pub enum PersistStep {
    /// The update of the record of the terminal session.
    UpdateByPty,
    /// The lookup that guards the update of the record of the launch.
    CheckLaunch,
    /// The update of the record of the launch.
    UpdateByLaunch,
    /// The pause before the next attempt.
    Pause,
    /// The lookup that guards the insertion.
    CheckBeforeUpsert,
    /// The insertion.
    Upsert,
    /// The update of the source of the record that was written.
    RecordSource { record_id: i64 },
    /// Nothing.
    Finished { outcome: Option<i64> },
}

/// A run as a value: the payload, how many attempts there are, how long the
/// pauses are, which attempt this is (from 0), and where it stands.
pub struct PersistState {
    pub payload: PayloadView,
    pub attempts: nat,
    pub retry_delay_ms: u64,
    pub attempt: nat,
    pub step: PersistStep,
}

/// The first of two optional texts that is there.
pub open spec fn first_of(a: Option<Seq<char>>, b: Option<Seq<char>>) -> Option<Seq<char>> {
    match a {
        Some(_) => a,
        None => b,
    }
}

/// An optional text, or `default`.
pub open spec fn text_or(text: Option<Seq<char>>, default: Seq<char>) -> Seq<char> {
    match text {
        Some(t) => t,
        None => default,
    }
}

impl PersistState {
    /// The start of a run. There is always one attempt, whatever was asked for.
    pub open spec fn initial(payload: PayloadView, max_attempts: nat, retry_delay_ms: u64) -> Self {
        PersistState {
            payload,
            attempts: if max_attempts == 0 { 1 } else { max_attempts },
            retry_delay_ms,
            attempt: 0,
            step: PersistStep::UpdateByPty,
        }
    }

    /// Attempts are counted within bounds, the launch is asked for only where it
    /// is known, a pause has an attempt after it, and the insertion has none.
    pub open spec fn valid(self) -> bool {
        &&& self.attempt < self.attempts
        &&& match self.step {
            PersistStep::CheckLaunch => self.payload.launch_id is Some,
            PersistStep::UpdateByLaunch => self.payload.launch_id is Some,
            PersistStep::Pause => self.attempt + 1 < self.attempts,
            PersistStep::CheckBeforeUpsert => self.payload.launch_id is Some && self.attempt + 1
                == self.attempts,
            PersistStep::Upsert => self.attempt + 1 == self.attempts,
            _ => true,
        }
    }

    /// The id under which the record of the launch is looked up or inserted: that
    /// of the launch, or else that of the terminal session.
    pub open spec fn launch_key(self) -> Seq<char> {
        text_or(self.payload.launch_id, self.payload.session_id)
    }

    /// The path under which a new record is inserted.
    pub open spec fn project_path(self) -> Seq<char> {
        text_or(
            first_of(self.payload.project_path, self.payload.workspace_path),
            Seq::empty(),
        )
    }

    /// What is asked for at this step.
    pub open spec fn request(self) -> HistoryRequestView {
        let payload = self.payload;
        match self.step {
            PersistStep::UpdateByPty => HistoryRequestView::UpdateResumeSessionByPty {
                session_id: payload.session_id,
                resume_session_id: payload.resume_session_id,
                source: payload.source,
            },
            PersistStep::CheckLaunch => HistoryRequestView::FindByLaunchId {
                launch_id: self.launch_key(),
            },
            PersistStep::CheckBeforeUpsert => HistoryRequestView::FindByLaunchId {
                launch_id: self.launch_key(),
            },
            PersistStep::UpdateByLaunch => HistoryRequestView::UpdateSessionStarted {
                launch_id: self.launch_key(),
                session_id: payload.session_id,
                resume_session_id: payload.resume_session_id,
                cli_tool: text_or(payload.cli_tool, "none"@),
                runtime_kind: text_or(payload.runtime_kind, "local"@),
                wsl_distro: payload.wsl_distro,
                launch_cwd: None,
            },
            PersistStep::RecordSource { record_id } => HistoryRequestView::UpdateResumeSource {
                record_id,
                source: payload.source,
            },
            PersistStep::Pause => HistoryRequestView::Sleep {
                attempt: self.attempt,
                millis: self.retry_delay_ms,
            },
            PersistStep::Upsert => HistoryRequestView::UpsertSessionStarted {
                launch_id: self.launch_key(),
                session_id: payload.session_id,
                resume_session_id: payload.resume_session_id,
                cli_tool: text_or(payload.cli_tool, "none"@),
                runtime_kind: text_or(payload.runtime_kind, "local"@),
                wsl_distro: payload.wsl_distro,
                launch_cwd: first_of(payload.workspace_path, payload.project_path),
                project_path: self.project_path(),
                project_name: project_name(self.project_path()),
                workspace_path: payload.workspace_path,
            },
            PersistStep::Finished { outcome } => HistoryRequestView::Finished { outcome },
        }
    }

    /// The step that follows an attempt which found no record: the pause before
    /// the next one, or the insertion after the last.
    pub open spec fn step_after_miss(self) -> PersistStep {
        if self.attempt + 1 < self.attempts {
            PersistStep::Pause
        } else if self.payload.launch_id is Some {
            PersistStep::CheckBeforeUpsert
        } else {
            PersistStep::Upsert
        }
    }

    /// The run after the answer to its request.
    pub open spec fn next(self, reply: HistoryReplyView) -> PersistState {
        let taken = launch_is_taken(reply, self.payload);
        let row = match reply {
            HistoryReplyView::Row(id) => Some(id),
            _ => None,
        };
        match self.step {
            PersistStep::UpdateByPty => PersistState {
                step: if row is Some {
                    PersistStep::Finished { outcome: row }
                } else if self.payload.launch_id is Some {
                    PersistStep::CheckLaunch
                } else {
                    self.step_after_miss()
                },
                ..self
            },
            PersistStep::CheckLaunch => PersistState {
                step: if taken {
                    PersistStep::Finished { outcome: None }
                } else {
                    PersistStep::UpdateByLaunch
                },
                ..self
            },
            PersistStep::UpdateByLaunch => PersistState {
                step: match row {
                    Some(record_id) => PersistStep::RecordSource { record_id },
                    None => self.step_after_miss(),
                },
                ..self
            },
            PersistStep::Pause => PersistState {
                attempt: self.attempt + 1,
                step: PersistStep::UpdateByPty,
                ..self
            },
            PersistStep::CheckBeforeUpsert => PersistState {
                step: if taken {
                    PersistStep::Finished { outcome: None }
                } else {
                    PersistStep::Upsert
                },
                ..self
            },
            PersistStep::Upsert => PersistState {
                step: match row {
                    Some(record_id) => PersistStep::RecordSource { record_id },
                    None => PersistStep::Finished { outcome: None },
                },
                ..self
            },
            PersistStep::RecordSource { record_id } => PersistState {
                step: PersistStep::Finished { outcome: Some(record_id) },
                ..self
            },
            PersistStep::Finished { outcome } => self,
        }
    }
}

/// The run that writes one detected resume id to the launch history. Whoever
/// drives it performs the request of [`PersistRun::request`] and hands the
/// answer to [`PersistRun::advance`], until the request is `Finished`.
pub struct PersistRun {
    payload: ResumeIdDetectedPayload,
    attempts: u32,
    retry_delay_ms: u64,
    attempt: u32,
    step: PersistStep,
}

impl View for PersistRun {
    type V = PersistState;

    closed spec fn view(&self) -> PersistState {
        PersistState {
            payload: self.payload@,
            attempts: self.attempts as nat,
            retry_delay_ms: self.retry_delay_ms,
            attempt: self.attempt as nat,
            step: self.step,
        }
    }
}

/// An optional string as an optional slice.
fn as_deref(text: &Option<String>) -> (slice: Option<&str>)
    ensures
        optional_str(slice) == optional_text(*text),
{
    match text {
        Some(s) => Some(s.as_str()),
        None => None,
    }
}

/// The first of two optional slices that is there.
fn or<'a>(a: Option<&'a str>, b: Option<&'a str>) -> (first: Option<&'a str>)
    ensures
        optional_str(first) == first_of(optional_str(a), optional_str(b)),
{
    match a {
        Some(_) => a,
        None => b,
    }
}

/// An optional slice, or `default`.
fn unwrap_or<'a>(text: Option<&'a str>, default: &'a str) -> (slice: &'a str)
    ensures
        slice@ == text_or(optional_str(text), default@),
{
    match text {
        Some(s) => s,
        None => default,
    }
}

/// Starts to write a detected resume id to the launch history, in up to
/// `max_attempts` attempts (at least one) with pauses of `retry_delay_ms`
/// milliseconds between them.
pub fn persist_resume_binding(
    payload: ResumeIdDetectedPayload,
    max_attempts: u32,
    retry_delay_ms: u64,
) -> (run: PersistRun)
    ensures
        run@ == PersistState::initial(payload@, max_attempts as nat, retry_delay_ms),
{
    let attempts: u32 = if max_attempts == 0 { 1 } else { max_attempts };
    PersistRun { payload, attempts, retry_delay_ms, attempt: 0, step: PersistStep::UpdateByPty }
}

impl PersistRun {
    #[verifier::type_invariant]
    spec fn state_valid(self) -> bool {
        self@.valid()
    }

    /// The payload whose resume id is written.
    pub fn payload(&self) -> (payload: &ResumeIdDetectedPayload)
        ensures
            payload@ == self@.payload,
    {
        &self.payload
    }

    /// Where the run stands.
    pub fn step(&self) -> (step: PersistStep)
        ensures
            step == self@.step,
    {
        self.step
    }

    /// What is to be asked of the launch history next.
    pub fn request(&self) -> (request: HistoryRequest<'_>)
        ensures
            request@ == self@.request(),
    {
        let payload = &self.payload;
        let session_id = payload.session_id.as_str();
        let resume_session_id = payload.resume_session_id.as_str();
        let launch_id = unwrap_or(as_deref(&payload.launch_id), session_id);
        let cli_tool = unwrap_or(as_deref(&payload.cli_tool), "none");
        let runtime_kind = unwrap_or(as_deref(&payload.runtime_kind), "local");
        match self.step {
            PersistStep::UpdateByPty => HistoryRequest::UpdateResumeSessionByPty {
                session_id,
                resume_session_id,
                source: payload.source.as_str(),
            },
            PersistStep::CheckLaunch => HistoryRequest::FindByLaunchId { launch_id },
            PersistStep::CheckBeforeUpsert => HistoryRequest::FindByLaunchId { launch_id },
            PersistStep::UpdateByLaunch => HistoryRequest::UpdateSessionStarted {
                launch_id,
                session_id,
                resume_session_id,
                cli_tool,
                runtime_kind,
                wsl_distro: as_deref(&payload.wsl_distro),
                launch_cwd: None,
            },
            PersistStep::RecordSource { record_id } => HistoryRequest::UpdateResumeSource {
                record_id,
                source: payload.source.as_str(),
            },
            PersistStep::Pause => HistoryRequest::Sleep {
                attempt: self.attempt,
                millis: self.retry_delay_ms,
            },
            PersistStep::Upsert => {
                let project = as_deref(&payload.project_path);
                let workspace = as_deref(&payload.workspace_path);
                let project_path = unwrap_or(or(project, workspace), "");
                proof {
                    reveal_strlit("");
                    assert(""@ == Seq::<char>::empty());
                }
                HistoryRequest::UpsertSessionStarted {
                    launch_id,
                    session_id,
                    resume_session_id,
                    cli_tool,
                    runtime_kind,
                    wsl_distro: as_deref(&payload.wsl_distro),
                    launch_cwd: or(workspace, project),
                    project_path,
                    project_name: derive_project_name(project_path),
                    workspace_path: workspace,
                }
            },
            PersistStep::Finished { outcome } => HistoryRequest::Finished { outcome },
        }
    }

    /// The step that follows an attempt which found no record.
    fn step_after_miss(&self) -> (step: PersistStep)
        requires
            self@.valid(),
        ensures
            step == self@.step_after_miss(),
    {
        if self.attempt + 1 < self.attempts {
            PersistStep::Pause
        } else if self.payload.launch_id.is_some() {
            PersistStep::CheckBeforeUpsert
        } else {
            PersistStep::Upsert
        }
    }

    /// Takes the answer to the request and goes on to the next one.
    pub fn advance(&mut self, reply: HistoryReply)
        ensures
            final(self)@ == old(self)@.next(reply@),
    {
        proof {
            use_type_invariant(&*self);
        }
        match self.step {
            PersistStep::UpdateByPty => {
                let step = match reply {
                    HistoryReply::Row(id) => PersistStep::Finished { outcome: Some(id) },
                    _ => if self.payload.launch_id.is_some() {
                        PersistStep::CheckLaunch
                    } else {
                        self.step_after_miss()
                    },
                };
                self.step = step;
            },
            PersistStep::CheckLaunch => {
                if launch_record_conflicts(&reply, &self.payload) {
                    self.step = PersistStep::Finished { outcome: None };
                } else {
                    self.step = PersistStep::UpdateByLaunch;
                }
            },
            PersistStep::UpdateByLaunch => {
                let step = match reply {
                    HistoryReply::Row(id) => PersistStep::RecordSource { record_id: id },
                    _ => self.step_after_miss(),
                };
                self.step = step;
            },
            PersistStep::Pause => {
                self.step = PersistStep::UpdateByPty;
                self.attempt = self.attempt + 1;
            },
            PersistStep::CheckBeforeUpsert => {
                if launch_record_conflicts(&reply, &self.payload) {
                    self.step = PersistStep::Finished { outcome: None };
                } else {
                    self.step = PersistStep::Upsert;
                }
            },
            PersistStep::Upsert => {
                let step = match reply {
                    HistoryReply::Row(id) => PersistStep::RecordSource { record_id: id },
                    _ => PersistStep::Finished { outcome: None },
                };
                self.step = step;
            },
            PersistStep::RecordSource { record_id } => {
                self.step = PersistStep::Finished { outcome: Some(record_id) };
            },
            PersistStep::Finished { outcome: _ } => {},
        }
    }
}

} // verus!
