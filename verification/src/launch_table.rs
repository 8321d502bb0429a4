//! What the requests of a run mean on a table of launch records, and what a run
//! then leaves in it: the payload in the bound record, and everything as it was
//! when a binding is repeated or refused.

use vstd::prelude::*;

use crate::persist_binding::{HistoryRequestView, PersistState, PersistStep};
use crate::persist_laws::runs_stay_valid;
use crate::project_name::project_name;
use crate::resume_payload::{launch_is_taken, HistoryReplyView, LaunchRecordView, PayloadView};

verus! {

/// A row of the launch history.
pub struct LaunchRow {
    pub launch_id: Seq<char>,
    pub project_path: Seq<char>,
    pub project_name: Seq<char>,
    pub pty_session_id: Option<Seq<char>>,
    pub resume_session_id: Option<Seq<char>>,
    pub resume_source: Option<Seq<char>>,
    pub cli_tool: Seq<char>,
    pub runtime_kind: Seq<char>,
    pub wsl_distro: Option<Seq<char>>,
    pub launch_cwd: Option<Seq<char>>,
    pub workspace_path: Option<Seq<char>>,
}

/// The launch history: rows by id.
pub type LaunchTable = Map<i64, LaunchRow>;

/// The row with this id belongs to the terminal session.
pub open spec fn has_session(table: LaunchTable, id: i64, session_id: Seq<char>) -> bool {
    table.dom().contains(id) && table[id].pty_session_id == Some(session_id)
}

/// The row with this id belongs to the launch.
pub open spec fn has_launch(table: LaunchTable, id: i64, launch_id: Seq<char>) -> bool {
    table.dom().contains(id) && table[id].launch_id == launch_id
}

/// The record that a lookup gives of a row.
pub open spec fn record_of(table: LaunchTable, id: i64) -> LaunchRecordView {
    LaunchRecordView {
        id,
        pty_session_id: table[id].pty_session_id,
        resume_session_id: table[id].resume_session_id,
    }
}

/// No two rows belong to the terminal session.
pub open spec fn at_most_one_row(table: LaunchTable, session_id: Seq<char>) -> bool {
    forall|a: i64, b: i64|
        has_session(table, a, session_id) && has_session(table, b, session_id) ==> a == b
}

/// The table with the source of the resume id of one row set.
pub open spec fn with_source(table: LaunchTable, id: i64, source: Seq<char>) -> LaunchTable {
    table.insert(id, LaunchRow { resume_source: Some(source), ..table[id] })
}

/// Sets resume id and source of a row of the terminal session, if there is one.
pub open spec fn updates_session_row(
    before: LaunchTable,
    session_id: Seq<char>,
    resume_session_id: Seq<char>,
    source: Seq<char>,
    reply: HistoryReplyView,
    after: LaunchTable,
) -> bool {
    match reply {
        HistoryReplyView::Row(id) => {
            &&& has_session(before, id, session_id)
            &&& after == before.insert(
                id,
                LaunchRow {
                    resume_session_id: Some(resume_session_id),
                    resume_source: Some(source),
                    ..before[id]
                },
            )
        },
        HistoryReplyView::Missing => {
            &&& forall|id: i64| !has_session(before, id, session_id)
            &&& after == before
        },
        _ => false,
    }
}

/// Finds a row of the launch, if there is one.
pub open spec fn finds_launch_row(
    before: LaunchTable,
    launch_id: Seq<char>,
    reply: HistoryReplyView,
    after: LaunchTable,
) -> bool {
    &&& after == before
    &&& match reply {
        HistoryReplyView::Record(record) => {
            &&& has_launch(before, record.id, launch_id)
            &&& record == record_of(before, record.id)
        },
        HistoryReplyView::Missing => forall|id: i64| !has_launch(before, id, launch_id),
        _ => false,
    }
}

/// Sets terminal session and resume id of a row of the launch, if there is one.
/// Nothing is said of its other columns: a table may update them or keep them.
pub open spec fn updates_launch_row(
    before: LaunchTable,
    launch_id: Seq<char>,
    session_id: Seq<char>,
    resume_session_id: Seq<char>,
    reply: HistoryReplyView,
    after: LaunchTable,
) -> bool {
    match reply {
        HistoryReplyView::Row(id) => {
            &&& has_launch(before, id, launch_id)
            &&& after == before.insert(id, after[id])
            &&& has_launch(after, id, launch_id)
            &&& has_session(after, id, session_id)
            &&& after[id].resume_session_id == Some(resume_session_id)
        },
        HistoryReplyView::Missing => {
            &&& forall|id: i64| !has_launch(before, id, launch_id)
            &&& after == before
        },
        _ => false,
    }
}

/// Inserts a row with the columns of the request, under an id that is not taken.
/// Nothing is said of the source, which the request does not hold.
pub open spec fn inserts_row(
    before: LaunchTable,
    request: HistoryRequestView,
    reply: HistoryReplyView,
    after: LaunchTable,
) -> bool {
    reply matches HistoryReplyView::Row(id) && {
        &&& !before.dom().contains(id)
        &&& after.dom().contains(id)
        &&& after == before.insert(id, after[id])
        &&& row_is_as_requested(after[id], request)
    }
}

/// The row has the columns of the insertion that was asked for.
pub open spec fn row_is_as_requested(row: LaunchRow, request: HistoryRequestView) -> bool {
    request matches HistoryRequestView::UpsertSessionStarted {
        launch_id,
        session_id,
        resume_session_id,
        cli_tool,
        runtime_kind,
        wsl_distro,
        launch_cwd,
        project_path,
        project_name,
        workspace_path,
    } && row == (LaunchRow {
        launch_id,
        project_path,
        project_name,
        pty_session_id: Some(session_id),
        resume_session_id: Some(resume_session_id),
        resume_source: row.resume_source,
        cli_tool,
        runtime_kind,
        wsl_distro,
        launch_cwd,
        workspace_path,
    })
}

/// The table does what it is asked for: from `before` it comes to `after` and
/// gives this answer. Where several rows match, any of them may be the one.
pub open spec fn answers(
    before: LaunchTable,
    request: HistoryRequestView,
    reply: HistoryReplyView,
    after: LaunchTable,
) -> bool {
    match request {
        HistoryRequestView::UpdateResumeSessionByPty { session_id, resume_session_id, source } =>
            updates_session_row(before, session_id, resume_session_id, source, reply, after),
        HistoryRequestView::FindByLaunchId { launch_id } => finds_launch_row(
            before,
            launch_id,
            reply,
            after,
        ),
        HistoryRequestView::UpdateSessionStarted { launch_id, session_id, resume_session_id, .. } =>
            updates_launch_row(before, launch_id, session_id, resume_session_id, reply, after),
        HistoryRequestView::UpdateResumeSource { record_id, source } => {
            &&& reply is Done
            &&& after == if before.dom().contains(record_id) {
                with_source(before, record_id, source)
            } else {
                before
            }
        },
        HistoryRequestView::UpsertSessionStarted {
            launch_id,
            session_id,
            resume_session_id,
            ..
        } => if exists|id: i64| has_launch(before, id, launch_id) {
            updates_launch_row(before, launch_id, session_id, resume_session_id, reply, after)
        } else {
            inserts_row(before, request, reply, after)
        },
        HistoryRequestView::Sleep { attempt, millis } => true,
        HistoryRequestView::Finished { outcome } => after == before,
    }
}

/// The table does what it is asked for, or fails and stays as it was. While a run
/// pauses, others may write whatever they like.
pub open spec fn performs(
    before: LaunchTable,
    request: HistoryRequestView,
    reply: HistoryReplyView,
    after: LaunchTable,
) -> bool {
    if reply is Failed && !(request is Sleep) {
        after == before
    } else {
        answers(before, request, reply, after)
    }
}

/// A table performs every request of a run: `tables[i]` is the table at request
/// number `i`, and the last one is what is left.
pub open spec fn served(
    start: PersistState,
    replies: Seq<HistoryReplyView>,
    tables: Seq<LaunchTable>,
) -> bool {
    &&& tables.len() == replies.len() + 1
    &&& forall|i: int|
        0 <= i < replies.len() ==> performs(
            tables[i],
            #[trigger] start.request_at(replies, i),
            replies[i],
            tables[i + 1],
        )
}

/// Request number `i` of the run asked for the source to be set, and failed.
pub open spec fn source_failed_at(
    start: PersistState,
    replies: Seq<HistoryReplyView>,
    i: int,
) -> bool {
    &&& 0 <= i < replies.len()
    &&& start.request_at(replies, i) is UpdateResumeSource
    &&& replies[i] is Failed
}

/// The row belongs to the terminal session of the payload and holds its resume
/// id.
pub open spec fn row_is_bound(table: LaunchTable, id: i64, payload: PayloadView) -> bool {
    &&& has_session(table, id, payload.session_id)
    &&& table[id].resume_session_id == Some(payload.resume_session_id)
}

/// What holds of the table once a run has written a record.
spec fn binding_holds(state: PersistState, table: LaunchTable) -> bool {
    state.bound() matches Some(id) ==> row_is_bound(table, id, state.payload)
}

/// What holds of the source once a run has ended.
spec fn source_holds(state: PersistState, table: LaunchTable) -> bool {
    state.step matches PersistStep::Finished { outcome: Some(id) } ==> table[id].resume_source
        == Some(state.payload.source)
}

/// One request keeps the binding, and the source unless it fails to set it.
proof fn lemma_step_keeps_binding(
    state: PersistState,
    before: LaunchTable,
    reply: HistoryReplyView,
    after: LaunchTable,
)
    requires
        state.valid(),
        binding_holds(state, before),
        performs(before, state.request(), reply, after),
    ensures
        binding_holds(state.next(reply), after),
        source_holds(state, before) && !(state.step is RecordSource && reply is Failed)
            ==> source_holds(state.next(reply), after),
{
    let payload = state.payload;
    let session_id = payload.session_id;
    let key = state.launch_key();
    match state.step {
        PersistStep::UpdateByPty => {
            assert(reply is Failed || updates_session_row(
                before,
                session_id,
                payload.resume_session_id,
                payload.source,
                reply,
                after,
            ));
        },
        PersistStep::UpdateByLaunch => {
            assert(reply is Failed || updates_launch_row(
                before,
                key,
                session_id,
                payload.resume_session_id,
                reply,
                after,
            ));
        },
        PersistStep::Upsert => {
            lemma_upsert(state, before, reply, after);
        },
        _ => {},
    }
}

/// What an insertion leaves, said over the payload.
proof fn lemma_upsert(
    state: PersistState,
    before: LaunchTable,
    reply: HistoryReplyView,
    after: LaunchTable,
)
    requires
        state.step is Upsert,
        performs(before, state.request(), reply, after),
    ensures
        reply is Failed ==> after == before,
        !(reply is Failed) ==> {
            ||| updates_launch_row(
                before,
                state.launch_key(),
                state.payload.session_id,
                state.payload.resume_session_id,
                reply,
                after,
            )
            ||| inserts_row(before, state.request(), reply, after)
        },
        reply matches HistoryReplyView::Row(id) ==> row_is_bound(after, id, state.payload),
{
    assert(reply is Failed || updates_launch_row(
        before,
        state.launch_key(),
        state.payload.session_id,
        state.payload.resume_session_id,
        reply,
        after,
    ) || inserts_row(before, state.request(), reply, after));
}

/// A run that is served is served up to its last request but one.
proof fn lemma_served_before(
    start: PersistState,
    replies: Seq<HistoryReplyView>,
    tables: Seq<LaunchTable>,
)
    requires
        replies.len() > 0,
        served(start, replies, tables),
    ensures
        served(start, replies.drop_last(), tables.drop_last()),
        performs(
            tables[replies.len() - 1],
            start.after(replies.drop_last()).request(),
            replies.last(),
            tables.last(),
        ),
{
    let before = replies.drop_last();
    let earlier = tables.drop_last();
    let last = replies.len() - 1;
    assert forall|i: int| 0 <= i < before.len() implies performs(
        earlier[i],
        #[trigger] start.request_at(before, i),
        before[i],
        earlier[i + 1],
    ) by {
        assert(before.take(i) == replies.take(i));
        assert(start.request_at(replies, i) == start.request_at(before, i));
    }
    assert(replies.take(last) == before);
    assert(start.request_at(replies, last) == start.after(before).request());
}

/// The binding is kept to the end of the run, and so is the source.
proof fn lemma_run_keeps_binding(
    start: PersistState,
    replies: Seq<HistoryReplyView>,
    tables: Seq<LaunchTable>,
)
    requires
        start.valid(),
        start.step is UpdateByPty,
        served(start, replies, tables),
    ensures
        binding_holds(start.after(replies), tables.last()),
        (forall|i: int| !source_failed_at(start, replies, i)) ==> source_holds(
            start.after(replies),
            tables.last(),
        ),
    decreases replies.len(),
{
    if replies.len() > 0 {
        let before = replies.drop_last();
        let last = replies.len() - 1;
        lemma_served_before(start, replies, tables);
        lemma_run_keeps_binding(start, before, tables.drop_last());
        runs_stay_valid(start, before);
        lemma_step_keeps_binding(start.after(before), tables[last], replies[last], tables.last());
        if forall|i: int| !source_failed_at(start, replies, i) {
            assert forall|i: int| !source_failed_at(start, before, i) by {
                if source_failed_at(start, before, i) {
                    assert(before.take(i) == replies.take(i));
                    assert(source_failed_at(start, replies, i));
                }
            }
            assert(replies.take(last) == before);
            assert(!source_failed_at(start, replies, last));
        }
    }
}

/// What a binding writes can be read back: a run that ends bound to a record has
/// left terminal session and resume id of the payload in it, in whichever way it
/// came to that record and whatever failed on the way; and the source too, unless
/// the very request to set it failed.
pub proof fn bound_row_holds_the_payload(
    payload: PayloadView,
    max_attempts: nat,
    retry_delay_ms: u64,
    replies: Seq<HistoryReplyView>,
    tables: Seq<LaunchTable>,
    id: i64,
)
    requires
        served(PersistState::initial(payload, max_attempts, retry_delay_ms), replies, tables),
        PersistState::initial(payload, max_attempts, retry_delay_ms).after(replies).request() == (
        HistoryRequestView::Finished { outcome: Some(id) }),
    ensures
        row_is_bound(tables.last(), id, payload),
        (forall|i: int|
            !source_failed_at(
                PersistState::initial(payload, max_attempts, retry_delay_ms),
                replies,
                i,
            )) ==> tables.last()[id].resume_source == Some(payload.source),
{
    let start = PersistState::initial(payload, max_attempts, retry_delay_ms);
    lemma_run_keeps_binding(start, replies, tables);
    runs_stay_valid(start, replies);
}

/// What an insertion writes can be read back: where the launch had no row, the
/// row that the run inserts for it holds, when the run is over, the launch, the
/// path and the name of the project, the terminal session, the resume id, the
/// tool, the runtime, the distribution, the working directory and the workspace
/// of the payload, each with its default where the payload has none.
pub proof fn inserted_row_holds_the_payload(
    payload: PayloadView,
    max_attempts: nat,
    retry_delay_ms: u64,
    replies: Seq<HistoryReplyView>,
    tables: Seq<LaunchTable>,
    i: int,
    id: i64,
)
    requires
        served(PersistState::initial(payload, max_attempts, retry_delay_ms), replies, tables),
        0 <= i < replies.len(),
        PersistState::initial(payload, max_attempts, retry_delay_ms).request_at(
            replies,
            i,
        ) is UpsertSessionStarted,
        replies[i] == HistoryReplyView::Row(id),
        match payload.launch_id {
            Some(launch_id) => forall|other: i64| !has_launch(tables[i], other, launch_id),
            None => forall|other: i64| !has_launch(tables[i], other, payload.session_id),
        },
    ensures
        ({
            let row = tables.last()[id];
            &&& !tables[i].dom().contains(id)
            &&& tables.last().dom() == tables[i].dom().insert(id)
            &&& row.launch_id == match payload.launch_id {
                Some(launch_id) => launch_id,
                None => payload.session_id,
            }
            &&& row.project_path == match (payload.project_path, payload.workspace_path) {
                (Some(project), _) => project,
                (None, Some(workspace)) => workspace,
                (None, None) => Seq::empty(),
            }
            &&& row.project_name == project_name(row.project_path)
            &&& row.pty_session_id == Some(payload.session_id)
            &&& row.resume_session_id == Some(payload.resume_session_id)
            &&& row.cli_tool == match payload.cli_tool {
                Some(tool) => tool,
                None => "none"@,
            }
            &&& row.runtime_kind == match payload.runtime_kind {
                Some(kind) => kind,
                None => "local"@,
            }
            &&& row.wsl_distro == payload.wsl_distro
            &&& row.launch_cwd == match payload.workspace_path {
                Some(workspace) => Some(workspace),
                None => payload.project_path,
            }
            &&& row.workspace_path == payload.workspace_path
        }),
{
    let start = PersistState::initial(payload, max_attempts, retry_delay_ms);
    let state = start.after(replies.take(i));
    runs_stay_valid(start, replies.take(i));
    assert(start.request_at(replies, i) == state.request());
    assert(performs(tables[i], state.request(), replies[i], tables[i + 1]));
    assert(inserts_row(tables[i], state.request(), replies[i], tables[i + 1]));
    let inserted = tables[i + 1];
    assert(row_is_as_requested(inserted[id], state.request()));
    assert(inserted.dom() == tables[i].dom().insert(id));
    let recording = state.next(replies[i]);
    assert(replies.take(i + 1).drop_last() == replies.take(i));
    assert(start.after(replies.take(i + 1)) == recording);
    if i + 1 < replies.len() {
        assert(start.request_at(replies, i + 1) == recording.request());
        assert(performs(inserted, recording.request(), replies[i + 1], tables[i + 2]));
        assert(tables[i + 2] == inserted || tables[i + 2] == with_source(
            inserted,
            id,
            payload.source,
        ));
        assert(tables[i + 2].dom() == inserted.dom());
        assert(replies.take(i + 2).drop_last() == replies.take(i + 1));
        assert(start.after(replies.take(i + 2)) == recording.next(replies[i + 1]));
        lemma_finished_from(start, replies, i + 2);
        lemma_tables_stay(start, replies, tables, i + 2, replies.len() as int);
        assert(tables[replies.len() as int] == tables[i + 2]);
    }
}

/// A table whose rows belong to the same sessions as before has no second row of
/// one.
proof fn lemma_sessions_kept(before: LaunchTable, after: LaunchTable, session_id: Seq<char>)
    requires
        at_most_one_row(before, session_id),
        forall|id: i64|
            #[trigger] has_session(after, id, session_id) ==> has_session(before, id, session_id),
    ensures
        at_most_one_row(after, session_id),
{
}

/// A table that gives one row to a session without rows has at most one of it.
proof fn lemma_first_session_row(
    before: LaunchTable,
    id: i64,
    row: LaunchRow,
    session_id: Seq<char>,
)
    requires
        forall|other: i64| !has_session(before, other, session_id),
    ensures
        at_most_one_row(before.insert(id, row), session_id),
{
    let after = before.insert(id, row);
    assert forall|other: i64| #[trigger] has_session(after, other, session_id) implies other
        == id by {
        if other != id {
            assert(!has_session(before, other, session_id));
        }
    }
}

/// The session of the run has at most one row to begin with, nobody else gives it
/// a second one during a pause, and no update by terminal session fails.
pub open spec fn session_undisturbed(
    start: PersistState,
    replies: Seq<HistoryReplyView>,
    tables: Seq<LaunchTable>,
) -> bool {
    let session_id = start.payload.session_id;
    &&& at_most_one_row(tables[0], session_id)
    &&& forall|i: int| #![trigger start.request_at(replies, i)]
        0 <= i < replies.len() ==> {
            let request = start.request_at(replies, i);
            &&& request is Sleep ==> at_most_one_row(tables[i + 1], session_id)
            &&& request is UpdateResumeSessionByPty ==> !(replies[i] is Failed)
        }
}

/// At most one row has the session of the run, and none has it between a missed
/// update of that row and the next pause or write.
spec fn session_in_step(state: PersistState, table: LaunchTable) -> bool {
    let session_id = state.payload.session_id;
    &&& at_most_one_row(table, session_id)
    &&& match state.step {
        PersistStep::UpdateByPty => true,
        PersistStep::RecordSource { record_id } => true,
        PersistStep::Finished { outcome } => true,
        _ => forall|id: i64| !has_session(table, id, session_id),
    }
}

/// One request keeps the session with one row.
proof fn lemma_step_keeps_session(
    state: PersistState,
    before: LaunchTable,
    reply: HistoryReplyView,
    after: LaunchTable,
)
    requires
        state.valid(),
        session_in_step(state, before),
        performs(before, state.request(), reply, after),
        state.step is UpdateByPty ==> !(reply is Failed),
        state.step is Pause ==> at_most_one_row(after, state.payload.session_id),
    ensures
        session_in_step(state.next(reply), after),
{
    let payload = state.payload;
    let session_id = payload.session_id;
    let key = state.launch_key();
    match state.step {
        PersistStep::UpdateByPty => {
            assert(updates_session_row(
                before,
                session_id,
                payload.resume_session_id,
                payload.source,
                reply,
                after,
            ));
            lemma_sessions_kept(before, after, session_id);
            if reply is Missing {
                assert(forall|id: i64| !has_session(after, id, session_id));
            }
        },
        PersistStep::CheckLaunch => {
            assert(reply is Failed || finds_launch_row(before, key, reply, after));
        },
        PersistStep::CheckBeforeUpsert => {
            assert(reply is Failed || finds_launch_row(before, key, reply, after));
        },
        PersistStep::UpdateByLaunch => {
            assert(reply is Failed || updates_launch_row(
                before,
                key,
                session_id,
                payload.resume_session_id,
                reply,
                after,
            ));
            if let HistoryReplyView::Row(id) = reply {
                lemma_first_session_row(before, id, after[id], session_id);
            }
        },
        PersistStep::Upsert => {
            lemma_upsert(state, before, reply, after);
            if let HistoryReplyView::Row(id) = reply {
                lemma_first_session_row(before, id, after[id], session_id);
            }
        },
        PersistStep::RecordSource { record_id } => {
            lemma_sessions_kept(before, after, session_id);
        },
        _ => {},
    }
}

/// The session stays with one row: a run that is not disturbed gives its terminal
/// session to no second row.
pub proof fn session_stays_with_one_row(
    start: PersistState,
    replies: Seq<HistoryReplyView>,
    tables: Seq<LaunchTable>,
)
    requires
        start.valid(),
        start.step is UpdateByPty,
        served(start, replies, tables),
        session_undisturbed(start, replies, tables),
    ensures
        at_most_one_row(tables.last(), start.payload.session_id),
{
    lemma_run_keeps_session(start, replies, tables);
    runs_stay_valid(start, replies);
}

/// The session is kept with one row to the end of the run.
proof fn lemma_run_keeps_session(
    start: PersistState,
    replies: Seq<HistoryReplyView>,
    tables: Seq<LaunchTable>,
)
    requires
        start.valid(),
        start.step is UpdateByPty,
        served(start, replies, tables),
        session_undisturbed(start, replies, tables),
    ensures
        session_in_step(start.after(replies), tables.last()),
    decreases replies.len(),
{
    if replies.len() > 0 {
        let before = replies.drop_last();
        let earlier = tables.drop_last();
        let last = replies.len() - 1;
        lemma_served_before(start, replies, tables);
        assert forall|i: int| 0 <= i < before.len() implies #[trigger] start.request_at(before, i)
            == start.request_at(replies, i) by {
            assert(before.take(i) == replies.take(i));
        }
        assert(session_undisturbed(start, before, earlier));
        lemma_run_keeps_session(start, before, earlier);
        runs_stay_valid(start, before);
        assert(replies.take(last) == before);
        assert(start.request_at(replies, last) == start.after(before).request());
        lemma_step_keeps_session(start.after(before), tables[last], replies[last], tables.last());
    }
}

/// Binding again changes nothing: whatever failed during a first run that ended
/// bound to a record, a second run with the same payload, on the table that the
/// first one has left, ends bound to the same record after its first request,
/// which is no insertion. It sets the source of that record and touches nothing
/// else; every row is as it was, unless the first run failed to set the source.
/// That request must not fail, and the session must belong to one row only.
pub proof fn repeated_binding_changes_nothing(
    payload: PayloadView,
    first_attempts: nat,
    second_attempts: nat,
    retry_delay_ms: u64,
    first_replies: Seq<HistoryReplyView>,
    first_tables: Seq<LaunchTable>,
    id: i64,
    second_replies: Seq<HistoryReplyView>,
    second_tables: Seq<LaunchTable>,
)
    requires
        served(
            PersistState::initial(payload, first_attempts, retry_delay_ms),
            first_replies,
            first_tables,
        ),
        PersistState::initial(payload, first_attempts, retry_delay_ms).after(
            first_replies,
        ).request() == (HistoryRequestView::Finished { outcome: Some(id) }),
        at_most_one_row(first_tables.last(), payload.session_id),
        served(
            PersistState::initial(payload, second_attempts, retry_delay_ms),
            second_replies,
            second_tables,
        ),
        second_tables[0] == first_tables.last(),
        second_replies.len() >= 1,
        !(second_replies[0] is Failed),
    ensures
        ({
            let first = PersistState::initial(payload, first_attempts, retry_delay_ms);
            let second = PersistState::initial(payload, second_attempts, retry_delay_ms);
            let left = first_tables.last();
            &&& second_replies[0] == HistoryReplyView::Row(id)
            &&& second.request_at(second_replies, 0) is UpdateResumeSessionByPty
            &&& forall|i: int|
                1 <= i <= second_replies.len() ==> #[trigger] second.request_at(second_replies, i)
                    == (HistoryRequestView::Finished { outcome: Some(id) })
            &&& forall|i: int|
                1 <= i < second_tables.len() ==> #[trigger] second_tables[i] == with_source(
                    left,
                    id,
                    payload.source,
                )
            &&& (forall|i: int| !source_failed_at(first, first_replies, i)) ==> with_source(
                left,
                id,
                payload.source,
            ) == left
        }),
{
    let second = PersistState::initial(payload, second_attempts, retry_delay_ms);
    let left = first_tables.last();
    bound_row_holds_the_payload(
        payload,
        first_attempts,
        retry_delay_ms,
        first_replies,
        first_tables,
        id,
    );
    assert(second.after(second_replies.take(0)) == second);
    assert(second.request_at(second_replies, 0) == second.request());
    assert(updates_session_row(
        left,
        payload.session_id,
        payload.resume_session_id,
        payload.source,
        second_replies[0],
        second_tables[1],
    ));
    assert(second_replies[0] == HistoryReplyView::Row(id));
    assert(second_tables[1] == with_source(left, id, payload.source));
    if forall|i: int|
        !source_failed_at(
            PersistState::initial(payload, first_attempts, retry_delay_ms),
            first_replies,
            i,
        ) {
        assert(left.insert(id, left[id]) == left);
    }
    assert(second_replies.take(1).drop_last() == second_replies.take(0));
    assert(second.after(second_replies.take(1)) == second.next(second_replies[0]));
    lemma_finished_from(second, second_replies, 1);
    lemma_tables_stay(second, second_replies, second_tables, 1, second_replies.len() as int);
}

/// Binding twice is binding once: after a first run that was not disturbed and
/// did not fail to set the source, in whichever way it came to its record, a
/// second one with the same payload ends bound to that record and leaves every
/// row as it was.
pub proof fn binding_twice_is_binding_once(
    payload: PayloadView,
    first_attempts: nat,
    second_attempts: nat,
    retry_delay_ms: u64,
    first_replies: Seq<HistoryReplyView>,
    first_tables: Seq<LaunchTable>,
    id: i64,
    second_replies: Seq<HistoryReplyView>,
    second_tables: Seq<LaunchTable>,
)
    requires
        ({
            let first = PersistState::initial(payload, first_attempts, retry_delay_ms);
            let second = PersistState::initial(payload, second_attempts, retry_delay_ms);
            &&& served(first, first_replies, first_tables)
            &&& session_undisturbed(first, first_replies, first_tables)
            &&& forall|i: int| !source_failed_at(first, first_replies, i)
            &&& first.after(first_replies).request() == (HistoryRequestView::Finished {
                outcome: Some(id),
            })
            &&& served(second, second_replies, second_tables)
            &&& second_tables[0] == first_tables.last()
            &&& second_replies.len() >= 1
            &&& !(second_replies[0] is Failed)
        }),
    ensures
        PersistState::initial(payload, second_attempts, retry_delay_ms).after(
            second_replies,
        ).request() == (HistoryRequestView::Finished { outcome: Some(id) }),
        second_tables.last() == first_tables.last(),
{
    let first = PersistState::initial(payload, first_attempts, retry_delay_ms);
    let second = PersistState::initial(payload, second_attempts, retry_delay_ms);
    session_stays_with_one_row(first, first_replies, first_tables);
    repeated_binding_changes_nothing(
        payload,
        first_attempts,
        second_attempts,
        retry_delay_ms,
        first_replies,
        first_tables,
        id,
        second_replies,
        second_tables,
    );
    let count = second_replies.len() as int;
    assert(second_replies.take(count) == second_replies);
    assert(second.request_at(second_replies, count) == second.after(second_replies).request());
    assert(second_tables[count] == second_tables.last());
}

/// A launch that is taken is left alone: where all rows of the launch belong to
/// another terminal session and hold another resume id, and no row belongs to the
/// session of the payload, a run ends without a binding after its first lookup
/// and leaves every row as it was, unless that lookup fails.
pub proof fn taken_launch_is_left_alone(
    payload: PayloadView,
    max_attempts: nat,
    retry_delay_ms: u64,
    replies: Seq<HistoryReplyView>,
    tables: Seq<LaunchTable>,
    launch_id: Seq<char>,
)
    requires
        served(PersistState::initial(payload, max_attempts, retry_delay_ms), replies, tables),
        payload.launch_id == Some(launch_id),
        exists|id: i64| has_launch(tables[0], id, launch_id),
        forall|id: i64| #[trigger]
            has_launch(tables[0], id, launch_id) ==> {
                &&& tables[0][id].pty_session_id != Some(payload.session_id)
                &&& tables[0][id].resume_session_id is Some
                &&& tables[0][id].resume_session_id != Some(payload.resume_session_id)
            },
        forall|id: i64| !has_session(tables[0], id, payload.session_id),
        replies.len() >= 2,
        !(replies[1] is Failed),
    ensures
        ({
            let start = PersistState::initial(payload, max_attempts, retry_delay_ms);
            &&& forall|i: int|
                2 <= i <= replies.len() ==> #[trigger] start.request_at(replies, i) == (
                HistoryRequestView::Finished { outcome: None })
            &&& forall|i: int| 0 <= i < tables.len() ==> #[trigger] tables[i] == tables[0]
        }),
{
    let start = PersistState::initial(payload, max_attempts, retry_delay_ms);
    assert(start.after(replies.take(0)) == start);
    assert(start.request_at(replies, 0) == start.request());
    assert(replies[0] is Failed || updates_session_row(
        tables[0],
        payload.session_id,
        payload.resume_session_id,
        payload.source,
        replies[0],
        tables[1],
    ));
    assert(replies[0] is Failed || replies[0] is Missing);
    let looking = start.next(replies[0]);
    assert(replies.take(1).drop_last() == replies.take(0));
    assert(start.after(replies.take(1)) == looking);
    assert(start.request_at(replies, 1) == looking.request());
    assert(finds_launch_row(tables[1], launch_id, replies[1], tables[2]));
    assert(replies[1] is Record);
    assert(replies.take(2).drop_last() == replies.take(1));
    assert(start.after(replies.take(2)) == looking.next(replies[1]));
    assert(launch_is_taken(replies[1], payload));
    lemma_finished_from(start, replies, 2);
    lemma_tables_stay(start, replies, tables, 2, replies.len() as int);
}

/// Once finished, a run asks for nothing more.
proof fn lemma_finished_from(start: PersistState, replies: Seq<HistoryReplyView>, from: int)
    requires
        0 <= from <= replies.len(),
        start.after(replies.take(from)).finished(),
    ensures
        forall|i: int|
            from <= i <= replies.len() ==> #[trigger] start.request_at(replies, i)
                == start.after(replies.take(from)).request(),
    decreases replies.len() - from,
{
    if from < replies.len() {
        let next = replies.take(from + 1);
        assert(next.drop_last() == replies.take(from));
        assert(start.after(next) == start.after(replies.take(from)));
        lemma_finished_from(start, replies, from + 1);
    }
}

/// Nothing changes once a run makes no further request.
proof fn lemma_tables_stay(
    start: PersistState,
    replies: Seq<HistoryReplyView>,
    tables: Seq<LaunchTable>,
    from: int,
    upto: int,
)
    requires
        served(start, replies, tables),
        0 <= from <= upto <= replies.len(),
        forall|i: int|
            from <= i <= replies.len() ==> (#[trigger] start.request_at(replies, i)) is Finished,
    ensures
        forall|i: int| from <= i <= upto ==> #[trigger] tables[i] == tables[from],
    decreases upto,
{
    if upto > from {
        lemma_tables_stay(start, replies, tables, from, upto - 1);
        assert(start.request_at(replies, upto - 1) is Finished);
        assert(tables[upto] == tables[upto - 1]);
    }
}

} // verus!
