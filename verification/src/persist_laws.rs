//! What holds of every run that writes a detected resume id to the launch
//! history, whatever the answers are.

use vstd::prelude::*;

use crate::persist_binding::{HistoryRequestView, PersistState, PersistStep};
use crate::resume_payload::{launch_is_taken, HistoryReplyView, PayloadView};

verus! {

impl PersistState {
    /// The run after the answers to its requests, first to last.
    pub open spec fn after(self, replies: Seq<HistoryReplyView>) -> PersistState
        decreases replies.len(),
    {
        if replies.len() == 0 {
            self
        } else {
            self.after(replies.drop_last()).next(replies.last())
        }
    }

    /// The request number `i` (from 0) of a run that gets these answers.
    pub open spec fn request_at(
        self,
        replies: Seq<HistoryReplyView>,
        i: int,
    ) -> HistoryRequestView {
        self.after(replies.take(i)).request()
    }

    /// The run makes no further request.
    pub open spec fn finished(self) -> bool {
        self.step is Finished
    }

    /// The record to which the resume id has been bound so far.
    pub open spec fn bound(self) -> Option<i64> {
        match self.step {
            PersistStep::RecordSource { record_id } => Some(record_id),
            PersistStep::Finished { outcome } => outcome,
            _ => None,
        }
    }

    /// How many requests the run makes at most until it is finished.
    pub open spec fn requests_left(self) -> int {
        let later = 4 * (self.attempts - self.attempt - 1);
        match self.step {
            PersistStep::UpdateByPty => later + 6,
            PersistStep::CheckLaunch => later + 5,
            PersistStep::UpdateByLaunch => later + 4,
            PersistStep::Pause => later + 3,
            PersistStep::CheckBeforeUpsert => 3,
            PersistStep::Upsert => 2,
            PersistStep::RecordSource { record_id } => 1,
            PersistStep::Finished { outcome } => 0,
        }
    }
}

/// The request writes a record of the launch history.
pub open spec fn writes_record(request: HistoryRequestView) -> bool {
    ||| request is UpdateResumeSessionByPty
    ||| request is UpdateSessionStarted
    ||| request is UpsertSessionStarted
}

/// Request number `i` of the run wrote the record with the given id.
pub open spec fn wrote_at(
    start: PersistState,
    replies: Seq<HistoryReplyView>,
    i: int,
    id: i64,
) -> bool {
    &&& 0 <= i < replies.len()
    &&& writes_record(start.request_at(replies, i))
    &&& replies[i] == HistoryReplyView::Row(id)
}

/// How many of the answered requests were updates by terminal session.
pub open spec fn updates_by_pty(start: PersistState, replies: Seq<HistoryReplyView>) -> nat
    decreases replies.len(),
{
    if replies.len() == 0 {
        0
    } else {
        let before = replies.drop_last();
        updates_by_pty(start, before) + if start.after(
            before,
        ).request() is UpdateResumeSessionByPty {
            1nat
        } else {
            0nat
        }
    }
}

/// How many of the answered requests were updates by launch.
pub open spec fn updates_by_launch(start: PersistState, replies: Seq<HistoryReplyView>) -> nat
    decreases replies.len(),
{
    if replies.len() == 0 {
        0
    } else {
        let before = replies.drop_last();
        updates_by_launch(start, before) + if start.after(before).request() is UpdateSessionStarted {
            1nat
        } else {
            0nat
        }
    }
}

/// Request number `i` of the run was its last chance: a lookup that showed the
/// launch taken, or an insertion that was answered without a record.
pub open spec fn gave_up_at(start: PersistState, replies: Seq<HistoryReplyView>, i: int) -> bool {
    let request = start.request_at(replies, i);
    &&& 0 <= i < replies.len()
    &&& {
        ||| request is FindByLaunchId && launch_is_taken(replies[i], start.payload)
        ||| request is UpsertSessionStarted && !(replies[i] is Row)
    }
}

/// Request number `i` of the run asked for the source of the resume id to be set
/// on the record with the given id, by itself or together with the resume id.
pub open spec fn source_recorded_at(
    start: PersistState,
    replies: Seq<HistoryReplyView>,
    i: int,
    id: i64,
) -> bool {
    let request = start.request_at(replies, i);
    let payload = start.payload;
    &&& 0 <= i < replies.len()
    &&& {
        ||| request == HistoryRequestView::UpdateResumeSource {
            record_id: id,
            source: payload.source,
        }
        ||| request == HistoryRequestView::UpdateResumeSessionByPty {
            session_id: payload.session_id,
            resume_session_id: payload.resume_session_id,
            source: payload.source,
        } && replies[i] == HistoryReplyView::Row(id)
    }
}

/// How many of the answered requests were pauses.
pub open spec fn pauses(start: PersistState, replies: Seq<HistoryReplyView>) -> nat
    decreases replies.len(),
{
    if replies.len() == 0 {
        0
    } else {
        let before = replies.drop_last();
        pauses(start, before) + if start.after(before).request() is Sleep {
            1nat
        } else {
            0nat
        }
    }
}

/// An answer leaves a run valid, and uses up one of its requests unless it is
/// finished.
pub proof fn answer_is_progress(state: PersistState, reply: HistoryReplyView)
    requires
        state.valid(),
    ensures
        state.next(reply).valid(),
        state.next(reply).payload == state.payload,
        state.finished() || 0 <= state.next(reply).requests_left() < state.requests_left(),
{
}

/// A run stays valid, whatever the answers are; payload, number of attempts and
/// length of the pauses never change.
pub proof fn runs_stay_valid(start: PersistState, replies: Seq<HistoryReplyView>)
    requires
        start.valid(),
    ensures
        start.after(replies).valid(),
        start.after(replies).payload == start.payload,
        start.after(replies).attempts == start.attempts,
        start.after(replies).retry_delay_ms == start.retry_delay_ms,
    decreases replies.len(),
{
    if replies.len() > 0 {
        runs_stay_valid(start, replies.drop_last());
    }
}

/// A run ends: after as many answers as it had requests left it is finished,
/// whatever they were.
pub proof fn runs_end(start: PersistState, replies: Seq<HistoryReplyView>)
    requires
        start.valid(),
    ensures
        start.after(replies).finished() || start.after(replies).requests_left() + replies.len()
            <= start.requests_left(),
        replies.len() >= start.requests_left() ==> start.after(replies).finished(),
    decreases replies.len(),
{
    if replies.len() > 0 {
        let before = replies.drop_last();
        runs_end(start, before);
        runs_stay_valid(start, before);
        answer_is_progress(start.after(before), replies.last());
    }
}

/// A new run makes at most four requests an attempt, and two more.
pub proof fn new_run_ends(
    payload: PayloadView,
    max_attempts: nat,
    retry_delay_ms: u64,
    replies: Seq<HistoryReplyView>,
)
    requires
        replies.len() >= 4 * PersistState::initial(
            payload,
            max_attempts,
            retry_delay_ms,
        ).attempts + 2,
    ensures
        PersistState::initial(payload, max_attempts, retry_delay_ms).after(replies).finished(),
{
    runs_end(PersistState::initial(payload, max_attempts, retry_delay_ms), replies);
}

/// A finished run stays as it is.
pub proof fn finished_is_final(state: PersistState, replies: Seq<HistoryReplyView>)
    requires
        state.finished(),
    ensures
        state.after(replies) == state,
    decreases replies.len(),
{
    if replies.len() > 0 {
        finished_is_final(state, replies.drop_last());
    }
}

/// A launch that is taken is never overwritten: when the lookup shows it, the
/// run ends at once without a binding, and asks for nothing more.
pub proof fn taken_launch_ends_the_run(
    state: PersistState,
    found: HistoryReplyView,
    later: Seq<HistoryReplyView>,
)
    requires
        state.request() is FindByLaunchId,
        launch_is_taken(found, state.payload),
    ensures
        state.next(found).after(later).request() == (HistoryRequestView::Finished {
            outcome: None,
        }),
{
    finished_is_final(state.next(found), later);
}

/// The record of a known launch is written only right after a lookup of that
/// launch which did not show it taken.
pub proof fn launch_is_looked_up_before_it_is_written(
    payload: PayloadView,
    max_attempts: nat,
    retry_delay_ms: u64,
    replies: Seq<HistoryReplyView>,
)
    requires
        payload.launch_id is Some,
        ({
            let request = PersistState::initial(payload, max_attempts, retry_delay_ms).after(
                replies,
            ).request();
            request is UpdateSessionStarted || request is UpsertSessionStarted
        }),
    ensures
        ({
            let start = PersistState::initial(payload, max_attempts, retry_delay_ms);
            &&& replies.len() > 0
            &&& start.request_at(replies, replies.len() - 1)
                == HistoryRequestView::FindByLaunchId { launch_id: payload.launch_id->0 }
            &&& !launch_is_taken(replies.last(), payload)
        }),
{
    let start = PersistState::initial(payload, max_attempts, retry_delay_ms);
    assert(replies.len() > 0);
    runs_stay_valid(start, replies.drop_last());
    assert(replies.take(replies.len() - 1) == replies.drop_last());
}

/// The outcome is exactly what was written: a run is bound to a record if and
/// only if one of its requests wrote that record.
pub proof fn bound_iff_written(
    start: PersistState,
    replies: Seq<HistoryReplyView>,
    id: i64,
)
    requires
        start.bound() is None,
    ensures
        start.after(replies).bound() == Some(id) <==> exists|i: int|
            wrote_at(start, replies, i, id),
    decreases replies.len(),
{
    if replies.len() > 0 {
        let before = replies.drop_last();
        let last = replies.len() - 1;
        bound_iff_written(start, before, id);
        let state = start.after(before);
        assert(replies.take(last) == before);
        if exists|i: int| wrote_at(start, before, i, id) {
            let i = choose|i: int| wrote_at(start, before, i, id);
            assert(before.take(i) == replies.take(i));
            assert(wrote_at(start, replies, i, id));
        }
        if exists|i: int| wrote_at(start, replies, i, id) {
            let i = choose|i: int| wrote_at(start, replies, i, id);
            if i < last {
                assert(before.take(i) == replies.take(i));
                assert(wrote_at(start, before, i, id));
            } else {
                assert(writes_record(state.request()));
            }
        }
        if start.after(replies).bound() == Some(id) && state.bound() != Some(id) {
            assert(wrote_at(start, replies, last, id));
        }
    }
}

/// At most one record is written in a run.
pub proof fn at_most_one_record_is_written(
    start: PersistState,
    replies: Seq<HistoryReplyView>,
    i: int,
    a: i64,
    j: int,
    b: i64,
)
    requires
        start.bound() is None,
        wrote_at(start, replies, i, a),
        wrote_at(start, replies, j, b),
    ensures
        i == j,
        a == b,
{
    if i < j {
        lemma_no_write_after_write(start, replies, i, a, j, b);
    } else if j < i {
        lemma_no_write_after_write(start, replies, j, b, i, a);
    }
}

/// Nothing is written after a record has been written.
proof fn lemma_no_write_after_write(
    start: PersistState,
    replies: Seq<HistoryReplyView>,
    i: int,
    a: i64,
    j: int,
    b: i64,
)
    requires
        start.bound() is None,
        wrote_at(start, replies, i, a),
        i < j < replies.len(),
    ensures
        !wrote_at(start, replies, j, b),
{
    let before = replies.take(j);
    assert(before.take(i) == replies.take(i));
    assert(wrote_at(start, before, i, a));
    bound_iff_written(start, before, a);
    assert(start.after(before).bound() == Some(a));
}

/// Updates come first: every attempt makes one update by terminal session, and
/// there is one pause between two attempts.
pub proof fn attempts_are_counted(start: PersistState, replies: Seq<HistoryReplyView>)
    requires
        start.valid(),
        start.attempt == 0,
        start.step is UpdateByPty,
    ensures
        pauses(start, replies) == start.after(replies).attempt,
        updates_by_pty(start, replies) == start.after(replies).attempt + if start.after(
            replies,
        ).step is UpdateByPty {
            0int
        } else {
            1int
        },
        pauses(start, replies) < start.attempts,
        updates_by_pty(start, replies) <= start.attempts,
    decreases replies.len(),
{
    runs_stay_valid(start, replies);
    if replies.len() > 0 {
        attempts_are_counted(start, replies.drop_last());
    }
}

/// An attempt makes at most one update by launch, and none where no launch is
/// known; one that has found no record has made it.
pub proof fn launch_updates_are_counted(start: PersistState, replies: Seq<HistoryReplyView>)
    requires
        start.valid(),
        start.attempt == 0,
        start.step is UpdateByPty,
    ensures
        ({
            let state = start.after(replies);
            let made = updates_by_launch(start, replies);
            if start.payload.launch_id is None {
                made == 0
            } else {
                match state.step {
                    PersistStep::UpdateByPty => made == state.attempt,
                    PersistStep::CheckLaunch => made == state.attempt,
                    PersistStep::UpdateByLaunch => made == state.attempt,
                    PersistStep::Pause => made == state.attempt + 1,
                    PersistStep::CheckBeforeUpsert => made == state.attempt + 1,
                    PersistStep::Upsert => made == state.attempt + 1,
                    _ => state.attempt <= made <= state.attempt + 1,
                }
            }
        }),
        updates_by_launch(start, replies) <= start.attempts,
    decreases replies.len(),
{
    runs_stay_valid(start, replies);
    if replies.len() > 0 {
        runs_stay_valid(start, replies.drop_last());
        launch_updates_are_counted(start, replies.drop_last());
    }
}

/// The insertion is the last resort: when it is asked for, every attempt has
/// been made, by terminal session and, where it is known, by launch, with all the
/// pauses between them, and no record was written.
pub proof fn upsert_is_the_last_resort(
    payload: PayloadView,
    max_attempts: nat,
    retry_delay_ms: u64,
    replies: Seq<HistoryReplyView>,
)
    requires
        PersistState::initial(payload, max_attempts, retry_delay_ms).after(
            replies,
        ).request() is UpsertSessionStarted,
    ensures
        ({
            let start = PersistState::initial(payload, max_attempts, retry_delay_ms);
            &&& updates_by_pty(start, replies) == start.attempts
            &&& updates_by_launch(start, replies) == if payload.launch_id is Some {
                start.attempts
            } else {
                0
            }
            &&& pauses(start, replies) + 1 == start.attempts
            &&& forall|i: int, id: i64| !wrote_at(start, replies, i, id)
        }),
{
    let start = PersistState::initial(payload, max_attempts, retry_delay_ms);
    runs_stay_valid(start, replies);
    attempts_are_counted(start, replies);
    launch_updates_are_counted(start, replies);
    assert forall|i: int, id: i64| !wrote_at(start, replies, i, id) by {
        bound_iff_written(start, replies, id);
    }
}

/// A run ends without a binding if and only if it was refused by a taken launch
/// or its insertion was answered without a record.
pub proof fn unbound_iff_refused_or_not_inserted(
    payload: PayloadView,
    max_attempts: nat,
    retry_delay_ms: u64,
    replies: Seq<HistoryReplyView>,
)
    ensures
        ({
            let start = PersistState::initial(payload, max_attempts, retry_delay_ms);
            start.after(replies).request() == (HistoryRequestView::Finished { outcome: None })
                <==> exists|i: int| gave_up_at(start, replies, i)
        }),
    decreases replies.len(),
{
    let start = PersistState::initial(payload, max_attempts, retry_delay_ms);
    if replies.len() > 0 {
        let before = replies.drop_last();
        let last = replies.len() - 1;
        let state = start.after(before);
        runs_stay_valid(start, before);
        unbound_iff_refused_or_not_inserted(payload, max_attempts, retry_delay_ms, before);
        assert(replies.take(last) == before);
        if exists|i: int| gave_up_at(start, before, i) {
            let i = choose|i: int| gave_up_at(start, before, i);
            assert(before.take(i) == replies.take(i));
            assert(gave_up_at(start, replies, i));
        }
        if exists|i: int| gave_up_at(start, replies, i) {
            let i = choose|i: int| gave_up_at(start, replies, i);
            if i < last {
                assert(before.take(i) == replies.take(i));
                assert(gave_up_at(start, before, i));
            }
        }
        if start.after(replies).request() == (HistoryRequestView::Finished { outcome: None })
            && !state.finished() {
            assert(gave_up_at(start, replies, last));
        }
    }
}

/// A binding keeps its source: a run that ends bound to a record has asked for
/// the source of the resume id to be set on that record, together with the
/// resume id or after it.
pub proof fn source_is_recorded(start: PersistState, replies: Seq<HistoryReplyView>, id: i64)
    requires
        start.valid(),
        start.step is UpdateByPty,
        start.after(replies).request() == (HistoryRequestView::Finished { outcome: Some(id) }),
    ensures
        exists|i: int| source_recorded_at(start, replies, i, id),
    decreases replies.len(),
{
    let before = replies.drop_last();
    let last = replies.len() - 1;
    let state = start.after(before);
    runs_stay_valid(start, before);
    assert(replies.take(last) == before);
    if state.finished() {
        source_is_recorded(start, before, id);
        let i = choose|i: int| source_recorded_at(start, before, i, id);
        assert(before.take(i) == replies.take(i));
        assert(source_recorded_at(start, replies, i, id));
    } else {
        assert(source_recorded_at(start, replies, last, id));
    }
}

/// A repeated binding is answered by its first update: after a run has inserted
/// a record, a second run with the same payload first asks for the record of the
/// very terminal session, and with the very resume id, that the insertion wrote;
/// answered with that record, it ends bound to it and asks for nothing more.
pub proof fn repeated_run_is_answered_by_its_first_update(
    payload: PayloadView,
    first_attempts: nat,
    second_attempts: nat,
    retry_delay_ms: u64,
    replies: Seq<HistoryReplyView>,
    i: int,
    id: i64,
    later: Seq<HistoryReplyView>,
)
    requires
        ({
            let first = PersistState::initial(payload, first_attempts, retry_delay_ms);
            &&& wrote_at(first, replies, i, id)
            &&& first.request_at(replies, i) is UpsertSessionStarted
        }),
    ensures
        ({
            let first = PersistState::initial(payload, first_attempts, retry_delay_ms);
            let second = PersistState::initial(payload, second_attempts, retry_delay_ms);
            &&& first.request_at(replies, i) matches HistoryRequestView::UpsertSessionStarted {
                session_id: written_session_id,
                resume_session_id: written_resume_session_id,
                ..
            } && second.request() == (HistoryRequestView::UpdateResumeSessionByPty {
                session_id: written_session_id,
                resume_session_id: written_resume_session_id,
                source: payload.source,
            })
            &&& second.next(HistoryReplyView::Row(id)).after(later).request() == (
            HistoryRequestView::Finished { outcome: Some(id) })
        }),
{
    let first = PersistState::initial(payload, first_attempts, retry_delay_ms);
    let second = PersistState::initial(payload, second_attempts, retry_delay_ms);
    runs_stay_valid(first, replies.take(i));
    finished_is_final(second.next(HistoryReplyView::Row(id)), later);
}

/// Once a record is written the binding stands, whatever becomes of the update
/// of its source.
pub proof fn source_failure_keeps_the_binding(state: PersistState, reply: HistoryReplyView)
    requires
        state.bound() is Some,
    ensures
        state.next(reply).request() == (HistoryRequestView::Finished { outcome: state.bound() }),
{
}

/// A request that fails counts as one that found nothing.
pub proof fn failure_counts_as_missing(state: PersistState)
    ensures
        state.next(HistoryReplyView::Failed) == state.next(HistoryReplyView::Missing),
{
}

/// Every write carries the terminal session and the resume id of the payload.
pub proof fn writes_carry_the_detected_ids(state: PersistState)
    requires
        writes_record(state.request()),
    ensures
        match state.request() {
            HistoryRequestView::UpdateResumeSessionByPty {
                session_id,
                resume_session_id,
                source,
            } => session_id == state.payload.session_id && resume_session_id
                == state.payload.resume_session_id,
            HistoryRequestView::UpdateSessionStarted { session_id, resume_session_id, .. } =>
                session_id == state.payload.session_id && resume_session_id
                == state.payload.resume_session_id,
            HistoryRequestView::UpsertSessionStarted { session_id, resume_session_id, .. } =>
                session_id == state.payload.session_id && resume_session_id
                == state.payload.resume_session_id,
            _ => false,
        },
{
}

} // verus!
