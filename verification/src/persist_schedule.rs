//! The requests of a run, one by one, said over the payload and the answers
//! alone.

use vstd::prelude::*;

use crate::persist_binding::{HistoryRequest, HistoryRequestView, PersistState, PersistStep};
use crate::persist_laws::runs_stay_valid;
use crate::project_name::project_name;
use crate::resume_payload::{
    launch_is_taken_by_other_session_and_resume_id, HistoryReplyView, PayloadView,
};

verus! {

/// The answer lets a run go on looking: a lookup gave no record that belongs to
/// another terminal session and holds another resume id, and a request that
/// writes gave no record.
pub open spec fn leads_on(
    request: HistoryRequestView,
    reply: HistoryReplyView,
    payload: PayloadView,
) -> bool {
    match request {
        HistoryRequestView::FindByLaunchId { launch_id } => match reply {
            HistoryReplyView::Record(record) => {
                ||| record.pty_session_id == Some(payload.session_id)
                ||| record.resume_session_id is None
                ||| record.resume_session_id == Some(payload.resume_session_id)
            },
            _ => true,
        },
        HistoryRequestView::Sleep { attempt, millis } => true,
        _ => !(reply is Row),
    }
}

/// All answers before number `i` let the run go on looking.
pub open spec fn leads_on_to(start: PersistState, replies: Seq<HistoryReplyView>, i: int) -> bool {
    &&& 0 <= i <= replies.len()
    &&& forall|j: int|
        0 <= j < i ==> leads_on(
            #[trigger] start.request_at(replies, j),
            replies[j],
            start.payload,
        )
}

/// The requests of a run for a known launch, as long as nothing is written and
/// the launch is free. There are as many attempts as were asked for, and at least
/// one. An attempt updates by terminal session, looks the launch up, updates by
/// launch, and pauses for the given time unless it is the last. Then the launch is
/// looked up again and the record inserted, and there the run ends.
pub proof fn schedule_of_a_known_launch(
    payload: PayloadView,
    launch_id: Seq<char>,
    max_attempts: nat,
    retry_delay_ms: u64,
    replies: Seq<HistoryReplyView>,
    i: int,
)
    requires
        payload.launch_id == Some(launch_id),
        leads_on_to(PersistState::initial(payload, max_attempts, retry_delay_ms), replies, i),
    ensures
        ({
            let attempts: int = if max_attempts == 0 {
                1
            } else {
                max_attempts as int
            };
            let request = PersistState::initial(payload, max_attempts, retry_delay_ms).request_at(
                replies,
                i,
            );
            &&& i < 4 * attempts && i % 4 == 0 ==> request == (
            HistoryRequestView::UpdateResumeSessionByPty {
                session_id: payload.session_id,
                resume_session_id: payload.resume_session_id,
                source: payload.source,
            })
            &&& i < 4 * attempts && i % 4 == 1 ==> request == (HistoryRequestView::FindByLaunchId {
                launch_id,
            })
            &&& i < 4 * attempts && i % 4 == 2 ==> request == (
            HistoryRequestView::UpdateSessionStarted {
                launch_id,
                session_id: payload.session_id,
                resume_session_id: payload.resume_session_id,
                cli_tool: match payload.cli_tool {
                    Some(tool) => tool,
                    None => "none"@,
                },
                runtime_kind: match payload.runtime_kind {
                    Some(kind) => kind,
                    None => "local"@,
                },
                wsl_distro: payload.wsl_distro,
                launch_cwd: None,
            })
            &&& i < 4 * attempts - 1 && i % 4 == 3 ==> request == (HistoryRequestView::Sleep {
                attempt: (i / 4) as nat,
                millis: retry_delay_ms,
            })
            &&& i == 4 * attempts - 1 ==> request == (HistoryRequestView::FindByLaunchId {
                launch_id,
            })
            &&& i == 4 * attempts ==> {
                &&& request is UpsertSessionStarted
                &&& request->UpsertSessionStarted_launch_id == launch_id
                &&& upsert_carries_the_payload(request, payload)
            }
            &&& i > 4 * attempts ==> request == (HistoryRequestView::Finished { outcome: None })
        }),
{
    let start = PersistState::initial(payload, max_attempts, retry_delay_ms);
    lemma_state_of_a_known_launch(start, replies, i);
    runs_stay_valid(start, replies.take(i));
}

/// The requests of a run for an unknown launch, as long as nothing is written:
/// updates by terminal session, with pauses of the given time between them, then
/// the insertion under the terminal session, and there the run ends.
pub proof fn schedule_of_an_unknown_launch(
    payload: PayloadView,
    max_attempts: nat,
    retry_delay_ms: u64,
    replies: Seq<HistoryReplyView>,
    i: int,
)
    requires
        payload.launch_id is None,
        leads_on_to(PersistState::initial(payload, max_attempts, retry_delay_ms), replies, i),
    ensures
        ({
            let attempts: int = if max_attempts == 0 {
                1
            } else {
                max_attempts as int
            };
            let request = PersistState::initial(payload, max_attempts, retry_delay_ms).request_at(
                replies,
                i,
            );
            &&& i < 2 * attempts && i % 2 == 0 ==> request == (
            HistoryRequestView::UpdateResumeSessionByPty {
                session_id: payload.session_id,
                resume_session_id: payload.resume_session_id,
                source: payload.source,
            })
            &&& i < 2 * attempts - 1 && i % 2 == 1 ==> request == (HistoryRequestView::Sleep {
                attempt: (i / 2) as nat,
                millis: retry_delay_ms,
            })
            &&& i == 2 * attempts - 1 ==> {
                &&& request is UpsertSessionStarted
                &&& request->UpsertSessionStarted_launch_id == payload.session_id
                &&& upsert_carries_the_payload(request, payload)
            }
            &&& i > 2 * attempts - 1 ==> request == (HistoryRequestView::Finished { outcome: None })
        }),
{
    let start = PersistState::initial(payload, max_attempts, retry_delay_ms);
    lemma_state_of_an_unknown_launch(start, replies, i);
    runs_stay_valid(start, replies.take(i));
}

/// The insertion carries session, resume id, tool, runtime and distribution of
/// the payload; its project is the project's path if there is one, else the
/// workspace's, else empty, with the name of that path; it starts in the
/// workspace if there is one, else in the project.
pub open spec fn upsert_carries_the_payload(
    request: HistoryRequestView,
    payload: PayloadView,
) -> bool {
    request matches HistoryRequestView::UpsertSessionStarted {
        launch_id,
        session_id,
        resume_session_id,
        cli_tool,
        runtime_kind,
        wsl_distro,
        launch_cwd,
        project_path,
        project_name: name,
        workspace_path,
    } && {
        &&& session_id == payload.session_id
        &&& resume_session_id == payload.resume_session_id
        &&& payload.cli_tool matches Some(tool) ==> cli_tool == tool
        &&& payload.cli_tool is None ==> cli_tool == "none"@
        &&& payload.runtime_kind matches Some(kind) ==> runtime_kind == kind
        &&& payload.runtime_kind is None ==> runtime_kind == "local"@
        &&& wsl_distro == payload.wsl_distro
        &&& workspace_path == payload.workspace_path
        &&& payload.workspace_path is Some ==> launch_cwd == payload.workspace_path
        &&& payload.workspace_path is None ==> launch_cwd == payload.project_path
        &&& payload.project_path matches Some(path) ==> project_path == path
        &&& payload.project_path is None ==> (payload.workspace_path matches Some(path)
            ==> project_path == path)
        &&& payload.project_path is None && payload.workspace_path is None ==> project_path.len()
            == 0
        &&& name == project_name(project_path)
    }
}

/// What follows an answer that ends the search, at any point of a run: a record
/// written by terminal session ends it; a record written otherwise gets the
/// source of the payload, and then the run ends with it, whatever the answer; a
/// record of the launch that belongs to another terminal session and holds
/// another resume id ends the run without a binding, and so does an insertion
/// without a record; and a run that has ended asks for nothing more.
pub proof fn what_ends_the_search(
    payload: PayloadView,
    max_attempts: nat,
    retry_delay_ms: u64,
    replies: Seq<HistoryReplyView>,
    i: int,
)
    requires
        0 <= i < replies.len(),
    ensures
        ({
            let start = PersistState::initial(payload, max_attempts, retry_delay_ms);
            let request = start.request_at(replies, i);
            let next = start.request_at(replies, i + 1);
            &&& request is UpdateResumeSessionByPty ==> (replies[i] matches HistoryReplyView::Row(id)
                ==> next == (HistoryRequestView::Finished { outcome: Some(id) }))
            &&& request is UpdateSessionStarted || request is UpsertSessionStarted ==> (
            replies[i] matches HistoryReplyView::Row(id) ==> next == (
            HistoryRequestView::UpdateResumeSource { record_id: id, source: payload.source }))
            &&& request matches HistoryRequestView::UpdateResumeSource { record_id, source }
                ==> next == (HistoryRequestView::Finished { outcome: Some(record_id) })
            &&& request is FindByLaunchId && !leads_on(request, replies[i], payload) ==> next == (
            HistoryRequestView::Finished { outcome: None })
            &&& request is UpsertSessionStarted && !(replies[i] is Row) ==> next == (
            HistoryRequestView::Finished { outcome: None })
            &&& request is Finished ==> next == request
        }),
{
    let start = PersistState::initial(payload, max_attempts, retry_delay_ms);
    lemma_next_state(start, replies, i);
    runs_stay_valid(start, replies.take(i));
    launch_is_taken_by_other_session_and_resume_id(replies[i], payload);
}

/// Every pause of a run lasts as long as was asked for, whatever the payload and
/// the answers.
pub proof fn every_pause_lasts_the_given_time(
    payload: PayloadView,
    max_attempts: nat,
    retry_delay_ms: u64,
    replies: Seq<HistoryReplyView>,
    i: int,
)
    ensures
        PersistState::initial(payload, max_attempts, retry_delay_ms).request_at(replies, i) matches
            HistoryRequestView::Sleep { attempt, millis } ==> millis == retry_delay_ms,
{
    runs_stay_valid(
        PersistState::initial(payload, max_attempts, retry_delay_ms),
        replies.take(i),
    );
}

/// Every write of a run, whatever came before it, carries what the payload says:
/// the update by launch its launch, session, resume id, tool, runtime and
/// distribution, the update of the source its source, the insertion all that it
/// is made of.
pub proof fn every_write_carries_the_payload(
    payload: PayloadView,
    max_attempts: nat,
    retry_delay_ms: u64,
    replies: Seq<HistoryReplyView>,
    i: int,
)
    ensures
        match PersistState::initial(payload, max_attempts, retry_delay_ms).request_at(replies, i) {
            HistoryRequestView::UpdateResumeSessionByPty {
                session_id,
                resume_session_id,
                source,
            } => {
                &&& session_id == payload.session_id
                &&& resume_session_id == payload.resume_session_id
                &&& source == payload.source
            },
            HistoryRequestView::FindByLaunchId { launch_id } => payload.launch_id == Some(launch_id),
            HistoryRequestView::UpdateSessionStarted {
                launch_id,
                session_id,
                resume_session_id,
                cli_tool,
                runtime_kind,
                wsl_distro,
                launch_cwd,
            } => {
                &&& payload.launch_id == Some(launch_id)
                &&& session_id == payload.session_id
                &&& resume_session_id == payload.resume_session_id
                &&& payload.cli_tool matches Some(tool) ==> cli_tool == tool
                &&& payload.cli_tool is None ==> cli_tool == "none"@
                &&& payload.runtime_kind matches Some(kind) ==> runtime_kind == kind
                &&& payload.runtime_kind is None ==> runtime_kind == "local"@
                &&& wsl_distro == payload.wsl_distro
                &&& launch_cwd is None
            },
            HistoryRequestView::UpdateResumeSource { record_id, source } => source
                == payload.source,
            HistoryRequestView::UpsertSessionStarted { launch_id, .. } => {
                &&& payload.launch_id is Some ==> payload.launch_id == Some(launch_id)
                &&& payload.launch_id is None ==> launch_id == payload.session_id
                &&& upsert_carries_the_payload(
                    PersistState::initial(payload, max_attempts, retry_delay_ms).request_at(
                        replies,
                        i,
                    ),
                    payload,
                )
            },
            _ => true,
        },
{
    runs_stay_valid(
        PersistState::initial(payload, max_attempts, retry_delay_ms),
        replies.take(i),
    );
}

/// The view of a request keeps its kind and gives every field its own value.
pub proof fn request_view_is_field_by_field(request: HistoryRequest<'_>)
    ensures
        match request {
            HistoryRequest::UpdateResumeSessionByPty { session_id, resume_session_id, source } =>
                request@ == (HistoryRequestView::UpdateResumeSessionByPty {
                session_id: session_id@,
                resume_session_id: resume_session_id@,
                source: source@,
            }),
            HistoryRequest::FindByLaunchId { launch_id } => request@ == (
            HistoryRequestView::FindByLaunchId { launch_id: launch_id@ }),
            HistoryRequest::UpdateSessionStarted {
                launch_id,
                session_id,
                resume_session_id,
                cli_tool,
                runtime_kind,
                wsl_distro,
                launch_cwd,
            } => {
                &&& request@ is UpdateSessionStarted
                &&& request@->UpdateSessionStarted_launch_id == launch_id@
                &&& request@->UpdateSessionStarted_session_id == session_id@
                &&& request@->UpdateSessionStarted_resume_session_id == resume_session_id@
                &&& request@->UpdateSessionStarted_cli_tool == cli_tool@
                &&& request@->UpdateSessionStarted_runtime_kind == runtime_kind@
                &&& wsl_distro matches Some(text) ==> request@->UpdateSessionStarted_wsl_distro
                    == Some(text@)
                &&& wsl_distro is None ==> request@->UpdateSessionStarted_wsl_distro is None
                &&& launch_cwd matches Some(text) ==> request@->UpdateSessionStarted_launch_cwd
                    == Some(text@)
                &&& launch_cwd is None ==> request@->UpdateSessionStarted_launch_cwd is None
            },
            HistoryRequest::UpdateResumeSource { record_id, source } => request@ == (
            HistoryRequestView::UpdateResumeSource { record_id, source: source@ }),
            HistoryRequest::Sleep { attempt, millis } => request@ == (HistoryRequestView::Sleep {
                attempt: attempt as nat,
                millis,
            }),
            HistoryRequest::UpsertSessionStarted {
                launch_id,
                session_id,
                resume_session_id,
                cli_tool,
                runtime_kind,
                wsl_distro,
                launch_cwd,
                project_path,
                project_name,
                workspace_path,
            } => {
                &&& request@ is UpsertSessionStarted
                &&& request@->UpsertSessionStarted_launch_id == launch_id@
                &&& request@->UpsertSessionStarted_session_id == session_id@
                &&& request@->UpsertSessionStarted_resume_session_id == resume_session_id@
                &&& request@->UpsertSessionStarted_cli_tool == cli_tool@
                &&& request@->UpsertSessionStarted_runtime_kind == runtime_kind@
                &&& request@->UpsertSessionStarted_project_path == project_path@
                &&& request@->UpsertSessionStarted_project_name == project_name@
                &&& wsl_distro matches Some(text) ==> request@->UpsertSessionStarted_wsl_distro
                    == Some(text@)
                &&& wsl_distro is None ==> request@->UpsertSessionStarted_wsl_distro is None
                &&& launch_cwd matches Some(text) ==> request@->UpsertSessionStarted_launch_cwd
                    == Some(text@)
                &&& launch_cwd is None ==> request@->UpsertSessionStarted_launch_cwd is None
                &&& workspace_path matches Some(text)
                    ==> request@->UpsertSessionStarted_workspace_path == Some(text@)
                &&& workspace_path is None ==> request@->UpsertSessionStarted_workspace_path is None
            },
            HistoryRequest::Finished { outcome } => request@ == (HistoryRequestView::Finished {
                outcome,
            }),
        },
{
}

/// One answer takes a run one step further.
proof fn lemma_next_state(start: PersistState, replies: Seq<HistoryReplyView>, i: int)
    requires
        0 <= i < replies.len(),
    ensures
        start.after(replies.take(i + 1)) == start.after(replies.take(i)).next(replies[i]),
{
    assert(replies.take(i + 1).drop_last() == replies.take(i));
}

/// Where a run for a known launch stands while it goes on looking.
proof fn lemma_state_of_a_known_launch(
    start: PersistState,
    replies: Seq<HistoryReplyView>,
    i: int,
)
    requires
        start.valid(),
        start.attempt == 0,
        start.step is UpdateByPty,
        start.payload.launch_id is Some,
        leads_on_to(start, replies, i),
    ensures
        ({
            let state = start.after(replies.take(i));
            let last = 4 * start.attempts - 1;
            if i < last {
                &&& state.attempt == i / 4
                &&& i % 4 == 0 ==> state.step is UpdateByPty
                &&& i % 4 == 1 ==> state.step is CheckLaunch
                &&& i % 4 == 2 ==> state.step is UpdateByLaunch
                &&& i % 4 == 3 ==> state.step is Pause
            } else if i == last {
                state.step is CheckBeforeUpsert
            } else if i == last + 1 {
                state.step is Upsert
            } else {
                state.step == (PersistStep::Finished { outcome: None })
            }
        }),
    decreases i,
{
    if i > 0 {
        lemma_state_of_a_known_launch(start, replies, i - 1);
        lemma_next_state(start, replies, i - 1);
        runs_stay_valid(start, replies.take(i - 1));
        launch_is_taken_by_other_session_and_resume_id(replies[i - 1], start.payload);
        assert(leads_on(start.request_at(replies, i - 1), replies[i - 1], start.payload));
    } else {
        assert(start.after(replies.take(0)) == start);
    }
}

/// Where a run for an unknown launch stands while it goes on looking.
proof fn lemma_state_of_an_unknown_launch(
    start: PersistState,
    replies: Seq<HistoryReplyView>,
    i: int,
)
    requires
        start.valid(),
        start.attempt == 0,
        start.step is UpdateByPty,
        start.payload.launch_id is None,
        leads_on_to(start, replies, i),
    ensures
        ({
            let state = start.after(replies.take(i));
            let last = 2 * start.attempts - 1;
            if i < last {
                &&& state.attempt == i / 2
                &&& i % 2 == 0 ==> state.step is UpdateByPty
                &&& i % 2 == 1 ==> state.step is Pause
            } else if i == last {
                state.step is Upsert
            } else {
                state.step == (PersistStep::Finished { outcome: None })
            }
        }),
    decreases i,
{
    if i > 0 {
        lemma_state_of_an_unknown_launch(start, replies, i - 1);
        lemma_next_state(start, replies, i - 1);
        runs_stay_valid(start, replies.take(i - 1));
        assert(leads_on(start.request_at(replies, i - 1), replies[i - 1], start.payload));
    } else {
        assert(start.after(replies.take(0)) == start);
    }
}

/// Where a run stands tells what it asks for, and the other way round.
pub proof fn step_tells_the_request(state: PersistState)
    ensures
        state.step is UpdateByPty <==> state.request() is UpdateResumeSessionByPty,
        state.step is CheckLaunch || state.step is CheckBeforeUpsert
            <==> state.request() is FindByLaunchId,
        state.step is UpdateByLaunch <==> state.request() is UpdateSessionStarted,
        state.step is Pause <==> state.request() is Sleep,
        state.step is Upsert <==> state.request() is UpsertSessionStarted,
        state.step matches PersistStep::RecordSource { record_id } ==> (state.request() matches
            HistoryRequestView::UpdateResumeSource { record_id: id, source } && id == record_id),
        state.step matches PersistStep::Finished { outcome } ==> state.request() == (
        HistoryRequestView::Finished { outcome }),
{
}

} // verus!
