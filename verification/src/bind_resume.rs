//! Binding a detected resume id: the alarm if it is assigned elsewhere, the
//! writing to the launch history, and the event that announces the outcome.

use vstd::prelude::*;

use crate::json::{json_view, JsonView};
use crate::persist_binding::{
    persist_resume_binding, HistoryRequest, HistoryRequestView, PersistRun, PersistState,
    PersistStep,
};
use crate::resume_payload::{
    history_updated, history_updated_payload, resume_id_assigned_elsewhere, resume_id_is_assigned,
    resume_id_is_assigned_to_other_session, HistoryReply, HistoryReplyView, LaunchRecord,
    LaunchRecordView, PayloadView, ResumeIdDetectedPayload,
};

verus! {

/// How many attempts are made to find a record to update.
pub const BIND_MAX_ATTEMPTS: u32 = 10;

/// How long the pause between two attempts is, in milliseconds.
pub const BIND_RETRY_DELAY_MS: u64 = 500;

/// The event that announces a binding.
pub const HISTORY_UPDATED_EVENT: &'static str = "history-updated";

/// What a binding asks for next, or that it asks for nothing.
pub enum BindRequest<'a> {
    /// Look up the record that holds a resume id.
    FindByResumeSessionId { resume_session_id: &'a str },
    /// Warn that the resume id is assigned to this record of another launch.
    WarnAssigned { existing: &'a LaunchRecord },
    /// Ask this of the launch history.
    History(HistoryRequest<'a>),
    /// Emit an event that announces a binding to this record, or none.
    Emit { event: &'static str, record_id: Option<i64>, payload: serde_json::Value },
    /// Nothing.
    Finished,
}

/// What a [`BindRequest`] says.
pub enum BindRequestView {
    FindByResumeSessionId { resume_session_id: Seq<char> },
    WarnAssigned { existing: LaunchRecordView },
    History(HistoryRequestView),
    Emit { event: Seq<char>, record_id: Option<i64>, payload: JsonView },
    Finished,
}

impl<'a> View for BindRequest<'a> {
    type V = BindRequestView;

    open spec fn view(&self) -> BindRequestView {
        match *self {
            BindRequest::FindByResumeSessionId { resume_session_id } =>
                BindRequestView::FindByResumeSessionId { resume_session_id: resume_session_id@ },
            BindRequest::WarnAssigned { existing } => BindRequestView::WarnAssigned {
                existing: existing@,
            },
            BindRequest::History(request) => BindRequestView::History(request@),
            BindRequest::Emit { event, record_id, payload } => BindRequestView::Emit {
                event: event@,
                record_id,
                payload: json_view(payload),
            },
            BindRequest::Finished => BindRequestView::Finished,
        }
    }
}

/// Where a binding stands.
pub enum BindStage {
    /// The lookup of the resume id.
    LookUp,
    /// The warning that it is assigned to this record.
    Warn { existing: LaunchRecord },
    /// The writing to the launch history.
    Persist,
    /// The event that announces the outcome.
    Announce { record_id: Option<i64> },
    /// Nothing.
    Finished,
}

/// What a [`BindStage`] says.
pub enum BindStageView {
    LookUp,
    Warn { existing: LaunchRecordView },
    Persist,
    Announce { record_id: Option<i64> },
    Finished,
}

impl View for BindStage {
    type V = BindStageView;

    open spec fn view(&self) -> BindStageView {
        match *self {
            BindStage::LookUp => BindStageView::LookUp,
            BindStage::Warn { existing } => BindStageView::Warn { existing: existing@ },
            BindStage::Persist => BindStageView::Persist,
            BindStage::Announce { record_id } => BindStageView::Announce { record_id },
            BindStage::Finished => BindStageView::Finished,
        }
    }
}

/// A binding as a value: its writing to the launch history, and where it stands.
pub struct BindState {
    pub persist: PersistState,
    pub stage: BindStageView,
}

impl BindState {
    /// The start of a binding.
    pub open spec fn initial(payload: PayloadView) -> BindState {
        BindState {
            persist: PersistState::initial(
                payload,
                BIND_MAX_ATTEMPTS as nat,
                BIND_RETRY_DELAY_MS,
            ),
            stage: BindStageView::LookUp,
        }
    }

    /// The writing has not begun before its stage, goes on during it, and is
    /// over, with the outcome that is announced, after it.
    pub open spec fn valid(self) -> bool {
        &&& self.persist.valid()
        &&& match self.stage {
            BindStageView::LookUp => self.persist.step is UpdateByPty,
            BindStageView::Warn { existing } => self.persist.step is UpdateByPty,
            BindStageView::Persist => !self.persist.finished(),
            BindStageView::Announce { record_id } => self.persist.step == (PersistStep::Finished {
                outcome: record_id,
            }),
            BindStageView::Finished => self.persist.finished(),
        }
    }

    /// What is asked for at this stage.
    pub open spec fn request(self) -> BindRequestView {
        match self.stage {
            BindStageView::LookUp => BindRequestView::FindByResumeSessionId {
                resume_session_id: self.persist.payload.resume_session_id,
            },
            BindStageView::Warn { existing } => BindRequestView::WarnAssigned { existing },
            BindStageView::Persist => BindRequestView::History(self.persist.request()),
            BindStageView::Announce { record_id } => BindRequestView::Emit {
                event: HISTORY_UPDATED_EVENT@,
                record_id,
                payload: history_updated(record_id, self.persist.payload),
            },
            BindStageView::Finished => BindRequestView::Finished,
        }
    }

    /// The binding after the answer to its request.
    pub open spec fn next(self, reply: HistoryReplyView) -> BindState {
        match self.stage {
            BindStageView::LookUp => BindState {
                stage: match reply {
                    HistoryReplyView::Record(existing) if resume_id_is_assigned(
                        reply,
                        self.persist.payload,
                    ) => BindStageView::Warn { existing },
                    _ => BindStageView::Persist,
                },
                ..self
            },
            BindStageView::Warn { existing } => BindState { stage: BindStageView::Persist, ..self },
            BindStageView::Persist => {
                let persist = self.persist.next(reply);
                BindState {
                    persist,
                    stage: match persist.step {
                        PersistStep::Finished { outcome } => BindStageView::Announce {
                            record_id: outcome,
                        },
                        _ => BindStageView::Persist,
                    },
                }
            },
            BindStageView::Announce { record_id } => BindState {
                stage: BindStageView::Finished,
                ..self
            },
            BindStageView::Finished => self,
        }
    }
}

/// The binding of one detected resume id. Whoever drives it performs the request
/// of [`BindRun::request`] and hands the answer to [`BindRun::advance`], until
/// the request is `Finished`.
pub struct BindRun {
    persist: PersistRun,
    stage: BindStage,
}

impl View for BindRun {
    type V = BindState;

    closed spec fn view(&self) -> BindState {
        BindState { persist: self.persist@, stage: self.stage@ }
    }
}

/// Starts to bind a detected resume id to the launch history.
pub fn bind_resume_id(payload: ResumeIdDetectedPayload) -> (run: BindRun)
    ensures
        run@ == BindState::initial(payload@),
{
    BindRun {
        persist: persist_resume_binding(payload, BIND_MAX_ATTEMPTS, BIND_RETRY_DELAY_MS),
        stage: BindStage::LookUp,
    }
}

impl BindRun {
    /// The payload whose resume id is bound.
    pub fn payload(&self) -> (payload: &ResumeIdDetectedPayload)
        ensures
            payload@ == self@.persist.payload,
    {
        self.persist.payload()
    }

    /// What is to be done next.
    pub fn request(&self) -> (request: BindRequest<'_>)
        ensures
            request@ == self@.request(),
    {
        match &self.stage {
            BindStage::LookUp => BindRequest::FindByResumeSessionId {
                resume_session_id: self.persist.payload().resume_session_id.as_str(),
            },
            BindStage::Warn { existing } => BindRequest::WarnAssigned { existing },
            BindStage::Persist => BindRequest::History(self.persist.request()),
            BindStage::Announce { record_id } => BindRequest::Emit {
                event: HISTORY_UPDATED_EVENT,
                record_id: *record_id,
                payload: history_updated_payload(*record_id, self.persist.payload()),
            },
            BindStage::Finished => BindRequest::Finished,
        }
    }

    /// Takes the answer to the request and goes on to the next one.
    pub fn advance(&mut self, reply: HistoryReply)
        ensures
            final(self)@ == old(self)@.next(reply@),
    {
        match &self.stage {
            BindStage::LookUp => {
                let assigned = resume_id_assigned_elsewhere(&reply, self.persist.payload());
                self.stage = match reply {
                    HistoryReply::Record(existing) => if assigned {
                        BindStage::Warn { existing }
                    } else {
                        BindStage::Persist
                    },
                    _ => BindStage::Persist,
                };
            },
            BindStage::Warn { existing: _ } => {
                self.stage = BindStage::Persist;
            },
            BindStage::Persist => {
                self.persist.advance(reply);
                if let PersistStep::Finished { outcome } = self.persist.step() {
                    self.stage = BindStage::Announce { record_id: outcome };
                }
            },
            BindStage::Announce { record_id: _ } => {
                self.stage = BindStage::Finished;
            },
            BindStage::Finished => {},
        }
    }
}

impl BindState {
    /// The binding after the answers to its requests, first to last.
    pub open spec fn after(self, replies: Seq<HistoryReplyView>) -> BindState
        decreases replies.len(),
    {
        if replies.len() == 0 {
            self
        } else {
            self.after(replies.drop_last()).next(replies.last())
        }
    }

    /// How many requests the binding makes at most until it is finished.
    pub open spec fn requests_left(self) -> int {
        match self.stage {
            BindStageView::LookUp => self.persist.requests_left() + 3,
            BindStageView::Warn { existing } => self.persist.requests_left() + 2,
            BindStageView::Persist => self.persist.requests_left() + 1,
            BindStageView::Announce { record_id } => 1,
            BindStageView::Finished => 0,
        }
    }
}

/// How many of the answered requests were warnings.
pub open spec fn warnings(start: BindState, replies: Seq<HistoryReplyView>) -> nat
    decreases replies.len(),
{
    if replies.len() == 0 {
        0
    } else {
        let before = replies.drop_last();
        warnings(start, before) + if start.after(before).request() is WarnAssigned {
            1nat
        } else {
            0nat
        }
    }
}

/// How many of the answered requests were events.
pub open spec fn events(start: BindState, replies: Seq<HistoryReplyView>) -> nat
    decreases replies.len(),
{
    if replies.len() == 0 {
        0
    } else {
        let before = replies.drop_last();
        events(start, before) + if start.after(before).request() is Emit {
            1nat
        } else {
            0nat
        }
    }
}

/// An answer leaves a binding valid, and uses up one of its requests unless it
/// is finished.
pub proof fn answer_is_progress(state: BindState, reply: HistoryReplyView)
    requires
        state.valid(),
    ensures
        state.next(reply).valid(),
        state.next(reply).persist.payload == state.persist.payload,
        state.stage is Finished || 0 <= state.next(reply).requests_left() < state.requests_left(),
{
    crate::persist_laws::answer_is_progress(state.persist, reply);
}

/// A binding stays valid, whatever the answers are; the payload never changes.
pub proof fn bindings_stay_valid(start: BindState, replies: Seq<HistoryReplyView>)
    requires
        start.valid(),
    ensures
        start.after(replies).valid(),
        start.after(replies).persist.payload == start.persist.payload,
    decreases replies.len(),
{
    if replies.len() > 0 {
        bindings_stay_valid(start, replies.drop_last());
        answer_is_progress(start.after(replies.drop_last()), replies.last());
    }
}

/// A binding ends: after as many answers as it had requests left it is finished,
/// whatever they were. A new one has 45.
pub proof fn bindings_end(start: BindState, replies: Seq<HistoryReplyView>)
    requires
        start.valid(),
    ensures
        start.after(replies).stage is Finished || start.after(replies).requests_left()
            + replies.len() <= start.requests_left(),
        replies.len() >= start.requests_left() ==> start.after(replies).stage is Finished,
        start == BindState::initial(start.persist.payload) ==> start.requests_left() == 45,
    decreases replies.len(),
{
    bindings_stay_valid(start, replies);
    if replies.len() > 0 {
        let before = replies.drop_last();
        bindings_end(start, before);
        bindings_stay_valid(start, before);
        answer_is_progress(start.after(before), replies.last());
    }
}

/// The outcome is announced whatever it is, and once: a finished binding has
/// emitted one event, one that is not finished has emitted none.
pub proof fn outcome_is_announced_once(payload: PayloadView, replies: Seq<HistoryReplyView>)
    ensures
        events(BindState::initial(payload), replies) == if BindState::initial(payload).after(
            replies,
        ).stage is Finished {
            1nat
        } else {
            0nat
        },
    decreases replies.len(),
{
    if replies.len() > 0 {
        outcome_is_announced_once(payload, replies.drop_last());
    }
}

/// The event names the record to which the resume id was bound, or none, and
/// carries the terminal session, the resume id and the source of the payload.
pub proof fn announced_record_is_the_outcome(payload: PayloadView, replies: Seq<HistoryReplyView>)
    requires
        BindState::initial(payload).after(replies).request() is Emit,
    ensures
        ({
            let state = BindState::initial(payload).after(replies);
            &&& state.persist.finished()
            &&& state.request() == BindRequestView::Emit {
                event: "history-updated"@,
                record_id: state.persist.bound(),
                payload: history_updated(state.persist.bound(), payload),
            }
        }),
{
    bindings_stay_valid(BindState::initial(payload), replies);
}

/// The alarm is raised exactly when the lookup shows the resume id assigned
/// elsewhere, and at most once.
pub proof fn warned_iff_assigned(payload: PayloadView, replies: Seq<HistoryReplyView>)
    requires
        replies.len() >= 2,
    ensures
        warnings(BindState::initial(payload), replies) == if resume_id_is_assigned(
            replies[0],
            payload,
        ) {
            1nat
        } else {
            0nat
        },
    decreases replies.len(),
{
    let start = BindState::initial(payload);
    let before = replies.drop_last();
    if replies.len() == 2 {
        let none = before.drop_last();
        assert(start.after(none) == start);
        assert(start.after(before) == start.next(replies[0]));
        assert(warnings(start, none) == 0);
        assert(warnings(start, before) == 0);
    } else {
        warned_iff_assigned(payload, before);
        lemma_past_warning(payload, before);
    }
}

/// The lookup and the warning come first and do not come back.
proof fn lemma_past_warning(payload: PayloadView, replies: Seq<HistoryReplyView>)
    requires
        replies.len() >= 2,
    ensures
        !(BindState::initial(payload).after(replies).stage is LookUp),
        !(BindState::initial(payload).after(replies).stage is Warn),
    decreases replies.len(),
{
    let start = BindState::initial(payload);
    let before = replies.drop_last();
    if replies.len() == 2 {
        assert(start.after(before.drop_last()) == start);
        assert(start.after(before) == start.next(replies[0]));
    } else {
        lemma_past_warning(payload, before);
    }
}

/// The alarm stops nothing: past the lookup, and the warning if there is one,
/// a binding writes to the launch history as a run of its own would with the
/// same answers.
pub proof fn binding_persists_like_a_run(payload: PayloadView, replies: Seq<HistoryReplyView>)
    requires
        replies.len() >= 1,
        resume_id_is_assigned(replies[0], payload) ==> replies.len() >= 2,
    ensures
        ({
            let start = BindState::initial(payload);
            let skipped = if resume_id_is_assigned(replies[0], payload) {
                2int
            } else {
                1int
            };
            start.after(replies).persist == start.persist.after(replies.skip(skipped))
        }),
    decreases replies.len(),
{
    let start = BindState::initial(payload);
    let skipped = if resume_id_is_assigned(replies[0], payload) {
        2int
    } else {
        1int
    };
    let before = replies.drop_last();
    if replies.len() == skipped {
        assert(replies.skip(skipped) == Seq::<HistoryReplyView>::empty());
        if skipped == 2 {
            assert(start.after(before.drop_last()) == start);
            assert(start.after(before) == start.next(replies[0]));
        } else {
            assert(start.after(before) == start);
        }
    } else {
        binding_persists_like_a_run(payload, before);
        bindings_stay_valid(start, before);
        assert(replies.skip(skipped).drop_last() == before.skip(skipped));
        if before.len() >= 2 {
            lemma_past_warning(payload, before);
        } else {
            assert(start.after(before.drop_last()) == start);
        }
    }
}

/// The requests of a binding, one by one. The first looks the resume id up. If it
/// gives a record that does not belong to the terminal session of the payload, the
/// second warns of that record. Then come the requests of a run with ten attempts
/// and pauses of half a second. When that run has an outcome, an event announces
/// it, and after that nothing more is asked for.
pub proof fn schedule_of_a_binding(
    payload: PayloadView,
    replies: Seq<HistoryReplyView>,
    i: int,
)
    requires
        0 <= i <= replies.len(),
    ensures
        ({
            let request = BindState::initial(payload).after(replies.take(i)).request();
            let run = PersistState::initial(payload, 10, 500);
            let assigned = replies[0] matches HistoryReplyView::Record(record)
                && record.pty_session_id != Some(payload.session_id);
            let first = if assigned {
                2int
            } else {
                1int
            };
            &&& i == 0 ==> request == (BindRequestView::FindByResumeSessionId {
                resume_session_id: payload.resume_session_id,
            })
            &&& i == 1 && assigned ==> (replies[0] matches HistoryReplyView::Record(record)
                ==> request == (BindRequestView::WarnAssigned { existing: record }))
            &&& i >= first ==> match run.after(replies.subrange(first, i)).request() {
                HistoryRequestView::Finished { outcome } => if run.after(
                    replies.subrange(first, i - 1),
                ).request() is Finished {
                    request is Finished
                } else {
                    request == (BindRequestView::Emit {
                        event: "history-updated"@,
                        record_id: outcome,
                        payload: history_updated(outcome, payload),
                    })
                },
                asked => request == BindRequestView::History(asked),
            }
        }),
{
    let start = BindState::initial(payload);
    let run = PersistState::initial(payload, 10, 500);
    resume_id_is_assigned_to_other_session(replies[0], payload);
    let first = if resume_id_is_assigned(replies[0], payload) {
        2int
    } else {
        1int
    };
    let answered = replies.take(i);
    assert(start.persist == run);
    bindings_stay_valid(start, answered);
    if i == 0 {
        assert(start.after(answered) == start);
    } else {
        assert(answered[0] == replies[0]);
        assert(answered.drop_last() == replies.take(i - 1));
        bindings_stay_valid(start, replies.take(i - 1));
        if i == 1 {
            assert(start.after(replies.take(0)) == start);
        }
        if i >= first {
            binding_persists_like_a_run(payload, answered);
            assert(answered.skip(first) == replies.subrange(first, i));
            if i > first {
                binding_persists_like_a_run(payload, replies.take(i - 1));
                assert(replies.take(i - 1).skip(first) == replies.subrange(first, i - 1));
                if i > 2 {
                    lemma_past_warning(payload, replies.take(i - 1));
                } else {
                    assert(replies.take(1).drop_last() == replies.take(0));
                    assert(start.after(replies.take(0)) == start);
                }
            } else {
                assert(run.after(replies.subrange(first, i)) == run);
                if i == 2 {
                    assert(replies.take(1).drop_last() == replies.take(0));
                    assert(start.after(replies.take(0)) == start);
                }
            }
        }
    }
}

/// Every pause of a binding lasts half a second, whatever the payload and the
/// answers, and no binding pauses after its tenth attempt.
pub proof fn bindings_pause_for_half_a_second(
    payload: PayloadView,
    replies: Seq<HistoryReplyView>,
)
    ensures
        BindState::initial(payload).after(replies).request() matches BindRequestView::History(
            HistoryRequestView::Sleep { attempt, millis },
        ) ==> millis == 500 && attempt < 9,
{
    bindings_stay_valid(BindState::initial(payload), replies);
    lemma_bounds_stay(BindState::initial(payload), replies);
}

/// Attempts and delay are those that a binding starts with.
proof fn lemma_bounds_stay(start: BindState, replies: Seq<HistoryReplyView>)
    ensures
        start.after(replies).persist.attempts == start.persist.attempts,
        start.after(replies).persist.retry_delay_ms == start.persist.retry_delay_ms,
    decreases replies.len(),
{
    if replies.len() > 0 {
        lemma_bounds_stay(start, replies.drop_last());
    }
}

/// The view of a request keeps its kind and what it carries.
pub proof fn request_view_keeps_its_kind(request: BindRequest<'_>)
    ensures
        match request {
            BindRequest::FindByResumeSessionId { resume_session_id } => request@ == (
            BindRequestView::FindByResumeSessionId { resume_session_id: resume_session_id@ }),
            BindRequest::WarnAssigned { existing } => request@ == (BindRequestView::WarnAssigned {
                existing: existing@,
            }),
            BindRequest::History(asked) => request@ == BindRequestView::History(asked@),
            BindRequest::Emit { event, record_id, payload } => request@ == (BindRequestView::Emit {
                event: event@,
                record_id,
                payload: json_view(payload),
            }),
            BindRequest::Finished => request@ is Finished,
        },
{
}

/// The view of a stage keeps its kind and what it carries.
pub proof fn stage_view_keeps_its_kind(stage: BindStage)
    ensures
        stage is LookUp <==> stage@ is LookUp,
        stage is Persist <==> stage@ is Persist,
        stage is Finished <==> stage@ is Finished,
        stage matches BindStage::Warn { existing } ==> stage@ == (BindStageView::Warn {
            existing: existing@,
        }),
        stage matches BindStage::Announce { record_id } ==> stage@ == (BindStageView::Announce {
            record_id,
        }),
{
}

} // verus!
