//! A detected resume id, the launch records it is held against, and the event
//! that announces its binding.

use vstd::prelude::*;

use crate::json::{
    json_view, new_object, object_value, optional_number_value, set_member, text_value, JsonView,
};

verus! {

/// What the `terminal-resume-id-detected` event says: the terminal session in
/// which a resume id was seen, that id, where it came from (`issued`,
/// `osc-title`), and what is known of the launch.
#[derive(Clone, Debug)]
pub struct ResumeIdDetectedPayload {
    pub session_id: String,
    pub resume_session_id: String,
    pub source: String,
    pub cli_tool: Option<String>,
    pub runtime_kind: Option<String>,
    pub launch_id: Option<String>,
    pub project_path: Option<String>,
    pub workspace_path: Option<String>,
    pub wsl_distro: Option<String>,
}

/// The texts of a [`ResumeIdDetectedPayload`].
pub struct PayloadView {
    pub session_id: Seq<char>,
    pub resume_session_id: Seq<char>,
    pub source: Seq<char>,
    pub cli_tool: Option<Seq<char>>,
    pub runtime_kind: Option<Seq<char>>,
    pub launch_id: Option<Seq<char>>,
    pub project_path: Option<Seq<char>>,
    pub workspace_path: Option<Seq<char>>,
    pub wsl_distro: Option<Seq<char>>,
}

/// The part of a launch history record that a binding looks at.
#[derive(Debug)]
pub struct LaunchRecord {
    pub id: i64,
    pub pty_session_id: Option<String>,
    pub resume_session_id: Option<String>,
}

/// The texts of a [`LaunchRecord`], and its id.
pub struct LaunchRecordView {
    pub id: i64,
    pub pty_session_id: Option<Seq<char>>,
    pub resume_session_id: Option<Seq<char>>,
}

/// What the launch history answers to a request.
#[derive(Debug)]
pub enum HistoryReply {
    /// The request failed.
    Failed,
    /// No record matches.
    Missing,
    /// The record with this id was written.
    Row(i64),
    /// This record was found.
    Record(LaunchRecord),
    /// What was asked for is done; there is nothing to tell.
    Done,
}

/// What a [`HistoryReply`] says.
pub enum HistoryReplyView {
    Failed,
    Missing,
    Row(i64),
    Record(LaunchRecordView),
    Done,
}

/// The text of an optional string.
pub open spec fn optional_text(text: Option<String>) -> Option<Seq<char>> {
    match text {
        Some(s) => Some(s@),
        None => None,
    }
}

impl View for ResumeIdDetectedPayload {
    type V = PayloadView;

    open spec fn view(&self) -> PayloadView {
        PayloadView {
            session_id: self.session_id@,
            resume_session_id: self.resume_session_id@,
            source: self.source@,
            cli_tool: optional_text(self.cli_tool),
            runtime_kind: optional_text(self.runtime_kind),
            launch_id: optional_text(self.launch_id),
            project_path: optional_text(self.project_path),
            workspace_path: optional_text(self.workspace_path),
            wsl_distro: optional_text(self.wsl_distro),
        }
    }
}

impl View for LaunchRecord {
    type V = LaunchRecordView;

    open spec fn view(&self) -> LaunchRecordView {
        LaunchRecordView {
            id: self.id,
            pty_session_id: optional_text(self.pty_session_id),
            resume_session_id: optional_text(self.resume_session_id),
        }
    }
}

impl View for HistoryReply {
    type V = HistoryReplyView;

    open spec fn view(&self) -> HistoryReplyView {
        match *self {
            HistoryReply::Failed => HistoryReplyView::Failed,
            HistoryReply::Missing => HistoryReplyView::Missing,
            HistoryReply::Row(id) => HistoryReplyView::Row(id),
            HistoryReply::Record(record) => HistoryReplyView::Record(record@),
            HistoryReply::Done => HistoryReplyView::Done,
        }
    }
}

/// The record belongs to another terminal session than the payload's, or to none.
pub open spec fn belongs_elsewhere(record: LaunchRecordView, payload: PayloadView) -> bool {
    record.pty_session_id != Some(payload.session_id)
}

/// The record holds a resume id, and not the payload's.
pub open spec fn holds_other_resume_id(record: LaunchRecordView, payload: PayloadView) -> bool {
    match record.resume_session_id {
        Some(resume_id) => resume_id != payload.resume_session_id,
        None => false,
    }
}

/// The launch is taken: a record was found that belongs elsewhere and holds
/// another resume id.
pub open spec fn launch_is_taken(found: HistoryReplyView, payload: PayloadView) -> bool {
    match found {
        HistoryReplyView::Record(record) => belongs_elsewhere(record, payload)
            && holds_other_resume_id(record, payload),
        _ => false,
    }
}

/// The resume id is assigned: the record that was found under it belongs
/// elsewhere.
pub open spec fn resume_id_is_assigned(found: HistoryReplyView, payload: PayloadView) -> bool {
    match found {
        HistoryReplyView::Record(record) => belongs_elsewhere(record, payload),
        _ => false,
    }
}

/// What the `history-updated` event says of a binding.
pub open spec fn history_updated(record_id: Option<i64>, payload: PayloadView) -> JsonView {
    JsonView::Object(
        map![
            "source"@ => JsonView::Text("resume-binding"@),
            "recordId"@ => match record_id {
                Some(id) => JsonView::Number(id as int),
                None => JsonView::Null,
            },
            "ptySessionId"@ => JsonView::Text(payload.session_id),
            "resumeSessionId"@ => JsonView::Text(payload.resume_session_id),
            "resumeSource"@ => JsonView::Text(payload.source),
        ],
    )
}

/// Whether an optional string is there and equals `text`.
fn is_text(optional: &Option<String>, text: &String) -> (same: bool)
    ensures
        same == (optional_text(*optional) == Some(text@)),
{
    match optional {
        Some(s) => *s == *text,
        None => false,
    }
}

/// Whether a record that was looked up by the payload's launch id must not be
/// overwritten: it belongs to another terminal session and holds another resume
/// id. A failed lookup stands in nobody's way.
pub fn launch_record_conflicts(
    found: &HistoryReply,
    payload: &ResumeIdDetectedPayload,
) -> (conflicts: bool)
    ensures
        conflicts == launch_is_taken(found@, payload@),
        conflicts <==> (found matches HistoryReply::Record(record) && {
            &&& record.pty_session_id matches Some(pty) ==> pty@ != payload.session_id@
            &&& record.resume_session_id matches Some(resume)
            &&& resume@ != payload.resume_session_id@
        }),
{
    match found {
        HistoryReply::Record(existing) => {
            !is_text(&existing.pty_session_id, &payload.session_id)
                && existing.resume_session_id.is_some() && !is_text(
                &existing.resume_session_id,
                &payload.resume_session_id,
            )
        },
        _ => false,
    }
}

/// Whether a record that was looked up by the payload's resume id shows that
/// the id was assigned to another launch.
pub fn resume_id_assigned_elsewhere(
    found: &HistoryReply,
    payload: &ResumeIdDetectedPayload,
) -> (assigned: bool)
    ensures
        assigned == resume_id_is_assigned(found@, payload@),
        assigned <==> (found matches HistoryReply::Record(record) && {
            record.pty_session_id matches Some(pty) ==> pty@ != payload.session_id@
        }),
{
    match found {
        HistoryReply::Record(existing) => !is_text(&existing.pty_session_id, &payload.session_id),
        _ => false,
    }
}

/// What the `history-updated` event carries for a binding to the record with
/// the given id, or for one that was not made.
pub fn history_updated_payload(
    record_id: Option<i64>,
    payload: &ResumeIdDetectedPayload,
) -> (event: serde_json::Value)
    ensures
        json_view(event) == history_updated(record_id, payload@),
{
    let mut object = new_object();
    set_member(&mut object, "source", text_value("resume-binding"));
    set_member(&mut object, "recordId", optional_number_value(record_id));
    set_member(&mut object, "ptySessionId", text_value(payload.session_id.as_str()));
    set_member(&mut object, "resumeSessionId", text_value(payload.resume_session_id.as_str()));
    set_member(&mut object, "resumeSource", text_value(payload.source.as_str()));
    object_value(object)
}

/// The event has five members, each under a name of its own: it tells every
/// binding from every other, and one that was made from one that was not.
pub proof fn event_tells_the_binding(record_id: Option<i64>, payload: PayloadView)
    ensures
        history_updated(record_id, payload) matches JsonView::Object(event) && {
            &&& event.dom() == set![
                "source"@,
                "recordId"@,
                "ptySessionId"@,
                "resumeSessionId"@,
                "resumeSource"@,
            ]
            &&& event["source"@] == JsonView::Text("resume-binding"@)
            &&& event["recordId"@] is Null <==> record_id is None
            &&& record_id matches Some(id) ==> event["recordId"@] == JsonView::Number(id as int)
            &&& event["ptySessionId"@] == JsonView::Text(payload.session_id)
            &&& event["resumeSessionId"@] == JsonView::Text(payload.resume_session_id)
            &&& event["resumeSource"@] == JsonView::Text(payload.source)
        },
{
    reveal_strlit("source");
    reveal_strlit("recordId");
    reveal_strlit("ptySessionId");
    reveal_strlit("resumeSessionId");
    reveal_strlit("resumeSource");
    assert("source"@.len() == 6);
    assert("recordId"@.len() == 8);
    assert("ptySessionId"@.len() == 12 && "ptySessionId"@[0] == 'p');
    assert("resumeSessionId"@.len() == 15);
    assert("resumeSource"@.len() == 12 && "resumeSource"@[0] == 'r');
}

/// A launch is taken exactly when a record was found whose terminal session is
/// not the payload's and whose resume id is there and is not the payload's.
pub proof fn launch_is_taken_by_other_session_and_resume_id(
    found: HistoryReplyView,
    payload: PayloadView,
)
    ensures
        launch_is_taken(found, payload) <==> (found matches HistoryReplyView::Record(record) && {
            &&& record.pty_session_id != Some(payload.session_id)
            &&& record.resume_session_id is Some
            &&& record.resume_session_id != Some(payload.resume_session_id)
        }),
{
}

/// A resume id is assigned exactly when a record was found under it whose
/// terminal session is not the payload's.
pub proof fn resume_id_is_assigned_to_other_session(found: HistoryReplyView, payload: PayloadView)
    ensures
        resume_id_is_assigned(found, payload) <==> (found matches HistoryReplyView::Record(record)
            && record.pty_session_id != Some(payload.session_id)),
{
}

/// The view of a payload gives every field its own text.
pub proof fn payload_view_is_field_by_field(payload: ResumeIdDetectedPayload)
    ensures
        payload@.session_id == payload.session_id@,
        payload@.resume_session_id == payload.resume_session_id@,
        payload@.source == payload.source@,
        payload.cli_tool matches Some(text) ==> payload@.cli_tool == Some(text@),
        payload.cli_tool is None ==> payload@.cli_tool is None,
        payload.runtime_kind matches Some(text) ==> payload@.runtime_kind == Some(text@),
        payload.runtime_kind is None ==> payload@.runtime_kind is None,
        payload.launch_id matches Some(text) ==> payload@.launch_id == Some(text@),
        payload.launch_id is None ==> payload@.launch_id is None,
        payload.project_path matches Some(text) ==> payload@.project_path == Some(text@),
        payload.project_path is None ==> payload@.project_path is None,
        payload.workspace_path matches Some(text) ==> payload@.workspace_path == Some(text@),
        payload.workspace_path is None ==> payload@.workspace_path is None,
        payload.wsl_distro matches Some(text) ==> payload@.wsl_distro == Some(text@),
        payload.wsl_distro is None ==> payload@.wsl_distro is None,
{
}

/// The view of a record gives every field its own text.
pub proof fn record_view_is_field_by_field(record: LaunchRecord)
    ensures
        record@.id == record.id,
        record.pty_session_id matches Some(text) ==> record@.pty_session_id == Some(text@),
        record.pty_session_id is None ==> record@.pty_session_id is None,
        record.resume_session_id matches Some(text) ==> record@.resume_session_id == Some(text@),
        record.resume_session_id is None ==> record@.resume_session_id is None,
{
}

/// The view of a reply keeps its kind and what it carries.
pub proof fn reply_view_keeps_its_kind(reply: HistoryReply)
    ensures
        reply is Failed <==> reply@ is Failed,
        reply is Missing <==> reply@ is Missing,
        reply is Done <==> reply@ is Done,
        reply matches HistoryReply::Row(id) ==> reply@ == HistoryReplyView::Row(id),
        reply matches HistoryReply::Record(record) ==> reply@ == HistoryReplyView::Record(record@),
{
}

} // verus!
