//! The course of one upload in a chat, from the moment its chat was locked: download,
//! size check, cancellable stream, and the end that always unlocks the chat again.
use vstd::prelude::*;
use crate::file_info::{
    extract_file_info, size_is_acceptable, spec_filename, spec_is_video, validate_file_size,
    FileInfo, ResponseInfo,
};
use crate::registry::{
    spec_begin_upload, spec_finish_upload, spec_handle_cancel, spec_register_trigger,
    spec_release_trigger, BeginUpload, RegistryView, UploadRegistry,
};
use crate::text::opt_string_view;
use stream_cancel::Trigger;

verus! {

/// Where an upload stands.
#[derive(PartialEq, Eq, Structural, Clone, Copy, Debug)]
pub enum UploadPhase {
    /// The chat is locked; the response of the download is awaited.
    Downloading,
    /// The file is streamed to the chat and can be cancelled.
    Streaming,
    /// The upload is over and the chat unlocked.
    Finished,
}

/// What happens to an upload.
pub enum UploadEvent {
    /// The download's response arrived.
    Response(ResponseInfo),
    /// The cancellable stream of the download was made; this trigger stops it.
    StreamReady(Trigger),
    /// Something went wrong (the download, the upload, or a message to the chat), or the
    /// upload was cancelled and its stream ended.
    Failed,
    /// The file was uploaded and the chat told.
    Completed,
}

/// What the bot is to do next.
pub enum UploadAction {
    /// Nothing.
    Nothing,
    /// Tell the chat why the file is refused, then end the upload as failed.
    Refuse(&'static str),
    /// Make a cancellable stream of the download and upload this file.
    Stream(FileInfo),
}

/// One upload: its chat and where it stands.
pub struct UploadSession {
    pub chat_id: i64,
    pub phase: UploadPhase,
}

/// The size the response announces (0 when it announces none).
pub open spec fn response_size(response: ResponseInfo) -> usize {
    (match response.content_length {
        Some(n) => n,
        None => 0,
    }) as usize
}

/// How an event moves an upload of `chat`, and the upload registry with it:
/// - while downloading, a response changes nothing (a refused size is told to the chat
///   while the chat is still locked; the failure that follows ends the upload); the
///   stream's trigger makes it cancellable and streaming; a failure or a completion ends it;
/// - while streaming, a failure or a completion ends it, and its trigger is released;
///   other events change nothing;
/// - a finished upload stays as it is.
/// Ending an upload unlocks its chat and forgets its starter.
pub open spec fn spec_upload_step(
    phase: UploadPhase,
    v: RegistryView,
    chat: i64,
    event: UploadEvent,
) -> (UploadPhase, RegistryView) {
    match phase {
        UploadPhase::Downloading => match event {
            UploadEvent::Response(_) => (UploadPhase::Downloading, v),
            UploadEvent::StreamReady(_) => (UploadPhase::Streaming, spec_register_trigger(v, chat)),
            _ => (UploadPhase::Finished, spec_finish_upload(v, chat)),
        },
        UploadPhase::Streaming => match event {
            UploadEvent::Failed | UploadEvent::Completed => (
                UploadPhase::Finished,
                spec_finish_upload(spec_release_trigger(v, chat), chat),
            ),
            _ => (UploadPhase::Streaming, v),
        },
        UploadPhase::Finished => (UploadPhase::Finished, v),
    }
}

/// What the bot does after an event: after a response while downloading, upload the
/// file it describes when its size is acceptable, else refuse it with the size check's
/// message; after any other event, nothing.
pub open spec fn action_fits(phase: UploadPhase, event: UploadEvent, action: UploadAction) -> bool {
    match (phase, event) {
        (UploadPhase::Downloading, UploadEvent::Response(r)) => {
            let size = response_size(r);
            match action {
                UploadAction::Stream(info) => {
                    &&& size_is_acceptable(size)
                    &&& info.size == size
                    &&& info.name@ == spec_filename(
                        opt_string_view(r.content_disposition),
                        opt_string_view(r.last_path_segment),
                        opt_string_view(r.content_type),
                    )
                    &&& info.is_video == spec_is_video(opt_string_view(r.content_type), info.name@)
                },
                UploadAction::Refuse(m) => {
                    &&& !size_is_acceptable(size)
                    &&& size == 0 ==> m == "⚠️ File is empty"
                    &&& size != 0 ==> m == "⚠️ File is too large"
                },
                UploadAction::Nothing => false,
            }
        },
        _ => action is Nothing,
    }
}

impl UploadSession {
    /// The upload of `chat_id`, whose chat has just been locked for it.
    pub fn new(chat_id: i64) -> (s: UploadSession)
        ensures
            s.chat_id == chat_id,
            s.phase == UploadPhase::Downloading,
    {
        UploadSession { chat_id, phase: UploadPhase::Downloading }
    }

    /// Moves the upload on by `event`; see `spec_upload_step` and `action_fits`.
    pub fn step(&mut self, registry: &mut UploadRegistry, event: UploadEvent) -> (action:
        UploadAction)
        ensures
            final(self).chat_id == old(self).chat_id,
            (final(self).phase, final(registry)@) == spec_upload_step(
                old(self).phase,
                old(registry)@,
                old(self).chat_id,
                event,
            ),
            action_fits(old(self).phase, event, action),
    {
        let chat_id = self.chat_id;
        match self.phase {
            UploadPhase::Downloading => match event {
                UploadEvent::Response(response) => {
                    let info = extract_file_info(&response);
                    match validate_file_size(info.size) {
                        Ok(()) => UploadAction::Stream(info),
                        Err(message) => UploadAction::Refuse(message),
                    }
                },
                UploadEvent::StreamReady(trigger) => {
                    registry.register_trigger(chat_id, trigger);
                    self.phase = UploadPhase::Streaming;
                    UploadAction::Nothing
                },
                _ => {
                    registry.finish_upload(chat_id);
                    self.phase = UploadPhase::Finished;
                    UploadAction::Nothing
                },
            },
            UploadPhase::Streaming => match event {
                UploadEvent::Failed | UploadEvent::Completed => {
                    registry.release_trigger(chat_id);
                    registry.finish_upload(chat_id);
                    self.phase = UploadPhase::Finished;
                    UploadAction::Nothing
                },
                _ => UploadAction::Nothing,
            },
            UploadPhase::Finished => UploadAction::Nothing,
        }
    }
}

// ---------------------------------------------------------------------------
// Laws
// ---------------------------------------------------------------------------

/// Every way an upload can end unlocks its chat and forgets its starter, and, when its
/// download was cancellable, forgets its trigger: a failure (after a refused size, or
/// the cancelled stream's end, included) or a completion, at any stage.
pub proof fn lemma_every_end_unlocks(
    phase: UploadPhase,
    v: RegistryView,
    chat: i64,
    event: UploadEvent,
)
    requires
        phase != UploadPhase::Finished,
        event is Failed || event is Completed,
    ensures
        ({
            let (next, after) = spec_upload_step(phase, v, chat, event);
            &&& next == UploadPhase::Finished
            &&& !after.locked.contains(chat)
            &&& !after.starters.dom().contains(chat)
            &&& phase == UploadPhase::Streaming ==> !after.cancellable.contains(chat)
        }),
{
}

/// A refused size keeps the chat locked while the refusal is told: the chat is
/// unlocked only by the failure that follows.
pub proof fn lemma_refusal_keeps_lock(v: RegistryView, chat: i64, event: UploadEvent)
    requires
        event matches UploadEvent::Response(r) && !size_is_acceptable(response_size(r)),
    ensures
        spec_upload_step(UploadPhase::Downloading, v, chat, event) == (UploadPhase::Downloading, v),
{
}

/// The stream's trigger makes a downloading upload cancellable; it stays so until the
/// upload ends.
pub proof fn lemma_streaming_is_cancellable(v: RegistryView, chat: i64, trigger: Trigger)
    ensures
        ({
            let (next, after) = spec_upload_step(
                UploadPhase::Downloading,
                v,
                chat,
                UploadEvent::StreamReady(trigger),
            );
            next == UploadPhase::Streaming && after.cancellable.contains(chat)
        }),
{
}

/// A finished upload is over: no event changes it or the registry.
pub proof fn lemma_finished_is_final(v: RegistryView, chat: i64, event: UploadEvent)
    ensures
        spec_upload_step(UploadPhase::Finished, v, chat, event) == (UploadPhase::Finished, v),
{
}

/// An upload changes nothing of another chat's lock, starter or trigger.
pub proof fn lemma_step_keeps_other_chats(
    phase: UploadPhase,
    v: RegistryView,
    chat: i64,
    other: i64,
    event: UploadEvent,
)
    requires
        chat != other,
    ensures
        ({
            let after = spec_upload_step(phase, v, chat, event).1;
            &&& after.locked.contains(other) == v.locked.contains(other)
            &&& after.cancellable.contains(other) == v.cancellable.contains(other)
            &&& after.starters.dom().contains(other) == v.starters.dom().contains(other)
            &&& after.starters.dom().contains(other) ==> after.starters[other] == v.starters[other]
        }),
{
}

// ---------------------------------------------------------------------------
// A whole upload
// ---------------------------------------------------------------------------

/// What happens in a chat while its upload runs: a step of the upload itself, or a press
/// of the cancel button by a user.
pub enum RunEvent {
    Step(UploadEvent),
    Cancel(i64),
}

/// One event of a run.
pub open spec fn spec_run_event(
    phase: UploadPhase,
    v: RegistryView,
    chat: i64,
    event: RunEvent,
) -> (UploadPhase, RegistryView) {
    match event {
        RunEvent::Step(e) => spec_upload_step(phase, v, chat, e),
        RunEvent::Cancel(sender) => (phase, spec_handle_cancel(v, chat, sender).0),
    }
}

/// The events of a run, in order.
pub open spec fn spec_run(
    phase: UploadPhase,
    v: RegistryView,
    chat: i64,
    events: Seq<RunEvent>,
) -> (UploadPhase, RegistryView)
    decreases events.len(),
{
    if events.len() == 0 {
        (phase, v)
    } else {
        let (p, w) = spec_run(phase, v, chat, events.drop_last());
        spec_run_event(p, w, chat, events.last())
    }
}

/// No one pressed the cancel button.
pub open spec fn without_cancel(events: Seq<RunEvent>) -> bool {
    forall|j: int| 0 <= j < events.len() ==> #[trigger] events[j] is Step
}

/// What holds of the chat of an upload started by `user` at every point of its run.
pub open spec fn run_invariant(phase: UploadPhase, w: RegistryView, chat: i64, user: i64) -> bool {
    &&& phase != UploadPhase::Finished ==> w.locked.contains(chat)
    &&& phase != UploadPhase::Finished && w.starters.dom().contains(chat) ==> w.starters[chat]
        == user
    &&& phase == UploadPhase::Downloading ==> !w.cancellable.contains(chat)
    &&& phase == UploadPhase::Finished ==> {
        &&& !w.locked.contains(chat)
        &&& !w.starters.dom().contains(chat)
        &&& !w.cancellable.contains(chat)
    }
}

/// A run keeps the invariant, keeps the starter while no one cancels, and leaves other
/// chats alone.
proof fn lemma_run_keeps(v0: RegistryView, chat: i64, user: i64, other: i64, events: Seq<RunEvent>)
    requires
        run_invariant(UploadPhase::Downloading, v0, chat, user),
        v0.starters.dom().contains(chat),
        other != chat,
    ensures
        ({
            let (p, w) = spec_run(UploadPhase::Downloading, v0, chat, events);
            &&& run_invariant(p, w, chat, user)
            &&& without_cancel(events) && p != UploadPhase::Finished ==> w.starters.dom().contains(
                chat,
            )
            &&& w.locked.contains(other) == v0.locked.contains(other)
            &&& w.cancellable.contains(other) == v0.cancellable.contains(other)
            &&& w.starters.dom().contains(other) == v0.starters.dom().contains(other)
            &&& w.starters.dom().contains(other) ==> w.starters[other] == v0.starters[other]
        }),
    decreases events.len(),
{
    if events.len() > 0 {
        let rest = events.drop_last();
        lemma_run_keeps(v0, chat, user, other, rest);
        if without_cancel(events) {
            assert forall|j: int| 0 <= j < rest.len() implies #[trigger] rest[j] is Step by {
                assert(rest[j] == events[j]);
            }
            assert(events[events.len() - 1] is Step);
        }
    }
}

/// A whole upload, started by `user` in `chat`, whatever happens while it runs (its own
/// steps and anyone's cancel presses, in any order):
/// - until it finishes, the chat stays locked, and its recorded starter is `user`, and
///   stays recorded unless someone cancelled;
/// - a failure at the end (which is how the bot ends every upload that has not
///   completed) leaves the chat unlocked, with no starter and no trigger;
/// - no other chat's lock, starter or trigger changes.
pub proof fn lemma_whole_upload(
    v: RegistryView,
    chat: i64,
    user: i64,
    other: i64,
    events: Seq<RunEvent>,
)
    requires
        spec_begin_upload(v, chat, Some(user)).1 == BeginUpload::Started,
        !v.cancellable.contains(chat),
        other != chat,
    ensures
        forall|i: int|
            0 <= i <= events.len() ==> {
                let (p, w) = #[trigger] spec_run(
                    UploadPhase::Downloading,
                    spec_begin_upload(v, chat, Some(user)).0,
                    chat,
                    events.take(i),
                );
                p != UploadPhase::Finished ==> {
                    &&& w.locked.contains(chat)
                    &&& w.starters.dom().contains(chat) ==> w.starters[chat] == user
                    &&& without_cancel(events.take(i)) ==> w.starters.dom().contains(chat)
                }
            },
        ({
            let (p, w) = spec_run(
                UploadPhase::Downloading,
                spec_begin_upload(v, chat, Some(user)).0,
                chat,
                events.push(RunEvent::Step(UploadEvent::Failed)),
            );
            &&& p == UploadPhase::Finished
            &&& !w.locked.contains(chat)
            &&& !w.starters.dom().contains(chat)
            &&& !w.cancellable.contains(chat)
            &&& w.locked.contains(other) == v.locked.contains(other)
            &&& w.cancellable.contains(other) == v.cancellable.contains(other)
            &&& w.starters.dom().contains(other) == v.starters.dom().contains(other)
            &&& w.starters.dom().contains(other) ==> w.starters[other] == v.starters[other]
        }),
{
    let v0 = spec_begin_upload(v, chat, Some(user)).0;
    assert forall|i: int| 0 <= i <= events.len() implies {
        let (p, w) = #[trigger] spec_run(UploadPhase::Downloading, v0, chat, events.take(i));
        p != UploadPhase::Finished ==> {
            &&& w.locked.contains(chat)
            &&& w.starters.dom().contains(chat) ==> w.starters[chat] == user
            &&& without_cancel(events.take(i)) ==> w.starters.dom().contains(chat)
        }
    } by {
        lemma_run_keeps(v0, chat, user, other, events.take(i));
    }
    let all = events.push(RunEvent::Step(UploadEvent::Failed));
    assert(all.drop_last() =~= events);
    lemma_run_keeps(v0, chat, user, other, events);
    lemma_run_keeps(v0, chat, user, other, all);
}

} // verus!
