//! Which chats have an upload running, who started it, and how to stop its download.
use vstd::prelude::*;
use crate::foreign::{
    map_contents, map_get, map_insert, map_new, map_remove, set_contents, set_insert, set_new,
    set_remove, trigger_keys, trigger_map_insert, trigger_map_new, trigger_map_remove,
    ChatTriggers, ChatUsers,
};
use dashmap::DashSet;
use stream_cancel::Trigger;

verus! {

/// The state of all chats' uploads.
pub struct RegistryView {
    /// Chats with an upload running.
    pub locked: Set<i64>,
    /// For each chat whose upload may still be cancelled, the user who started it.
    pub starters: Map<i64, i64>,
    /// Chats whose download can be stopped.
    pub cancellable: Set<i64>,
}

/// The uploads running in all chats: at most one per chat.
pub struct UploadRegistry {
    locks: DashSet<i64>,
    started_by: ChatUsers,
    triggers: ChatTriggers,
}

impl View for UploadRegistry {
    type V = RegistryView;

    closed spec fn view(&self) -> RegistryView {
        RegistryView {
            locked: set_contents(self.locks),
            starters: map_contents(self.started_by),
            cancellable: trigger_keys(self.triggers),
        }
    }
}

/// How a request to start an upload ended.
#[derive(PartialEq, Eq, Structural, Clone, Copy, Debug)]
pub enum BeginUpload {
    /// The message has no sender; nothing happens.
    NoSender,
    /// The chat has an upload running already; the user is told to wait.
    Busy,
    /// The chat is now locked for this upload.
    Started,
}

/// How a request to cancel an upload ended.
#[derive(PartialEq, Eq, Structural, Clone, Copy, Debug)]
pub enum CancelOutcome {
    /// There is nothing to cancel; nothing happens.
    Nothing,
    /// The user did not start the upload; the user is told so.
    Denied,
    /// The download was stopped.
    Cancelled,
}

/// Locking a chat: `true` when it was not locked before.
pub open spec fn spec_try_lock(v: RegistryView, chat: i64) -> (RegistryView, bool) {
    (RegistryView { locked: v.locked.insert(chat), ..v }, !v.locked.contains(chat))
}

/// Starting an upload in `chat` for the message's sender: nothing without a sender; a
/// locked chat stays as it is; otherwise the chat is locked and the sender recorded.
pub open spec fn spec_begin_upload(v: RegistryView, chat: i64, sender: Option<i64>) -> (
    RegistryView,
    BeginUpload,
) {
    match sender {
        None => (v, BeginUpload::NoSender),
        Some(user) => if v.locked.contains(chat) {
            (v, BeginUpload::Busy)
        } else {
            (
                RegistryView {
                    locked: v.locked.insert(chat),
                    starters: v.starters.insert(chat, user),
                    cancellable: v.cancellable,
                },
                BeginUpload::Started,
            )
        },
    }
}

/// The end of an upload, however it ended: the chat is unlocked and its starter forgotten.
pub open spec fn spec_finish_upload(v: RegistryView, chat: i64) -> RegistryView {
    RegistryView {
        locked: v.locked.remove(chat),
        starters: v.starters.remove(chat),
        cancellable: v.cancellable,
    }
}

/// The chat's download became cancellable.
pub open spec fn spec_register_trigger(v: RegistryView, chat: i64) -> RegistryView {
    RegistryView { cancellable: v.cancellable.insert(chat), ..v }
}

/// The chat's download can no longer be cancelled.
pub open spec fn spec_release_trigger(v: RegistryView, chat: i64) -> RegistryView {
    RegistryView { cancellable: v.cancellable.remove(chat), ..v }
}

/// Stopping a chat's download: when it was cancellable, it no longer is and its starter
/// is forgotten.
pub open spec fn spec_cancel_upload(v: RegistryView, chat: i64) -> (RegistryView, bool) {
    if v.cancellable.contains(chat) {
        (
            RegistryView {
                locked: v.locked,
                starters: v.starters.remove(chat),
                cancellable: v.cancellable.remove(chat),
            },
            true,
        )
    } else {
        (v, false)
    }
}

/// A press of the cancel button by `sender` in `chat`: nothing when no upload was started
/// there; refused when `sender` did not start it; otherwise the download is stopped, if it
/// still can be.
pub open spec fn spec_handle_cancel(v: RegistryView, chat: i64, sender: i64) -> (
    RegistryView,
    CancelOutcome,
) {
    if !v.starters.dom().contains(chat) {
        (v, CancelOutcome::Nothing)
    } else if v.starters[chat] != sender {
        (v, CancelOutcome::Denied)
    } else {
        let (next, cancelled) = spec_cancel_upload(v, chat);
        (
            next,
            if cancelled {
                CancelOutcome::Cancelled
            } else {
                CancelOutcome::Nothing
            },
        )
    }
}

/// Only the user who started an upload may cancel it.
pub fn is_authorized_to_cancel(started_by_user_id: i64, sender_id: i64) -> (r: bool)
    ensures
        r == (started_by_user_id == sender_id),
{
    started_by_user_id == sender_id
}

impl UploadRegistry {
    /// No chat has an upload.
    pub fn new() -> (r: UploadRegistry)
        ensures
            r@.locked == Set::<i64>::empty(),
            r@.starters == Map::<i64, i64>::empty(),
            r@.cancellable == Set::<i64>::empty(),
    {
        let r = UploadRegistry { locks: set_new(), started_by: map_new(), triggers: trigger_map_new() };
        assert(r@.starters =~= Map::<i64, i64>::empty());
        r
    }

    /// Locks the chat; `true` when it was not locked before.
    pub fn try_lock_chat(&mut self, chat_id: i64) -> (locked: bool)
        ensures
            (final(self)@, locked) == spec_try_lock(old(self)@, chat_id),
    {
        set_insert(&mut self.locks, chat_id)
    }

    /// Starts an upload in `chat_id` for `sender`; see `spec_begin_upload`.
    pub fn begin_upload(&mut self, chat_id: i64, sender: Option<i64>) -> (r: BeginUpload)
        ensures
            (final(self)@, r) == spec_begin_upload(old(self)@, chat_id, sender),
    {
        let user = match sender {
            Some(user) => user,
            None => return BeginUpload::NoSender,
        };
        if !self.try_lock_chat(chat_id) {
            assert(self@.locked =~= old(self)@.locked);
            return BeginUpload::Busy;
        }
        map_insert(&mut self.started_by, chat_id, user);
        BeginUpload::Started
    }

    /// Ends the chat's upload: unlocks the chat and forgets its starter.
    pub fn finish_upload(&mut self, chat_id: i64)
        ensures
            final(self)@ == spec_finish_upload(old(self)@, chat_id),
    {
        set_remove(&mut self.locks, chat_id);
        map_remove(&mut self.started_by, chat_id);
    }

    /// Keeps the trigger that stops the chat's download.
    pub fn register_trigger(&mut self, chat_id: i64, trigger: Trigger)
        ensures
            final(self)@ == spec_register_trigger(old(self)@, chat_id),
    {
        trigger_map_insert(&mut self.triggers, chat_id, trigger);
    }

    /// Forgets the chat's trigger once its download is over.
    pub fn release_trigger(&mut self, chat_id: i64)
        ensures
            final(self)@ == spec_release_trigger(old(self)@, chat_id),
    {
        trigger_map_remove(&mut self.triggers, chat_id);
    }

    /// The user who started the chat's upload, while it may be cancelled.
    pub fn started_by(&self, chat_id: i64) -> (r: Option<i64>)
        ensures
            r == (if self@.starters.dom().contains(chat_id) {
                Some(self@.starters[chat_id])
            } else {
                None
            }),
    {
        map_get(&self.started_by, chat_id)
    }

    /// Stops the chat's download (its trigger is dropped) and forgets its starter;
    /// `true` when there was a download to stop.
    pub fn cancel_upload(&mut self, chat_id: i64) -> (cancelled: bool)
        ensures
            (final(self)@, cancelled) == spec_cancel_upload(old(self)@, chat_id),
    {
        match trigger_map_remove(&mut self.triggers, chat_id) {
            Some(_trigger) => {
                map_remove(&mut self.started_by, chat_id);
                true
            },
            None => {
                assert(self@.cancellable =~= old(self)@.cancellable);
                false
            },
        }
    }

    /// A press of the cancel button by `sender_id` in `chat_id`; see `spec_handle_cancel`.
    pub fn handle_cancel(&mut self, chat_id: i64, sender_id: i64) -> (r: CancelOutcome)
        ensures
            (final(self)@, r) == spec_handle_cancel(old(self)@, chat_id, sender_id),
    {
        let started_by_user_id = match self.started_by(chat_id) {
            Some(id) => id,
            None => return CancelOutcome::Nothing,
        };
        if !is_authorized_to_cancel(started_by_user_id, sender_id) {
            return CancelOutcome::Denied;
        }
        if self.cancel_upload(chat_id) {
            CancelOutcome::Cancelled
        } else {
            CancelOutcome::Nothing
        }
    }
}

// ---------------------------------------------------------------------------
// Laws
// ---------------------------------------------------------------------------

/// While a chat has an upload running, a request to start another one there is refused
/// and changes nothing.
pub proof fn lemma_locked_chat_is_busy(v: RegistryView, chat: i64, sender: i64)
    requires
        v.locked.contains(chat),
    ensures
        spec_begin_upload(v, chat, Some(sender)) == (v, BeginUpload::Busy),
{
}

/// One upload per chat: after an upload starts in a chat, the next request there, from
/// whichever user, is refused.
pub proof fn lemma_one_upload_per_chat(v: RegistryView, chat: i64, first: i64, second: i64)
    requires
        spec_begin_upload(v, chat, Some(first)).1 == BeginUpload::Started,
    ensures
        spec_begin_upload(spec_begin_upload(v, chat, Some(first)).0, chat, Some(second)).1
            == BeginUpload::Busy,
{
}

/// Once a chat's upload has finished, a new upload can start there.
pub proof fn lemma_finish_frees_chat(v: RegistryView, chat: i64, sender: i64)
    ensures
        spec_begin_upload(spec_finish_upload(v, chat), chat, Some(sender)).1
            == BeginUpload::Started,
{
}

/// Uploads in different chats do not affect each other: starting, finishing, or
/// cancelling in one chat leaves another chat's lock and starter as they were.
pub proof fn lemma_chats_are_independent(
    v: RegistryView,
    chat: i64,
    other: i64,
    sender: Option<i64>,
    canceller: i64,
)
    requires
        chat != other,
    ensures
        ({
            let begun = spec_begin_upload(v, chat, sender).0;
            &&& begun.locked.contains(other) == v.locked.contains(other)
            &&& begun.starters.dom().contains(other) == v.starters.dom().contains(other)
            &&& begun.starters.dom().contains(other) ==> begun.starters[other] == v.starters[other]
        }),
        ({
            let finished = spec_finish_upload(v, chat);
            &&& finished.locked.contains(other) == v.locked.contains(other)
            &&& finished.starters.dom().contains(other) == v.starters.dom().contains(other)
            &&& finished.starters.dom().contains(other) ==> finished.starters[other]
                == v.starters[other]
        }),
        ({
            let after = spec_handle_cancel(v, chat, canceller).0;
            &&& after.locked.contains(other) == v.locked.contains(other)
            &&& after.cancellable.contains(other) == v.cancellable.contains(other)
            &&& after.starters.dom().contains(other) == v.starters.dom().contains(other)
        }),
{
}

/// Only the user who started an upload may cancel it: anyone else is refused, and the
/// upload goes on unchanged.
pub proof fn lemma_only_starter_may_cancel(v: RegistryView, chat: i64, sender: i64)
    requires
        v.starters.dom().contains(chat),
        v.starters[chat] != sender,
    ensures
        spec_handle_cancel(v, chat, sender) == (v, CancelOutcome::Denied),
{
}

/// The user who started an upload can cancel its download once it is running; the chat
/// stays locked until the upload finishes, and a second press does nothing.
pub proof fn lemma_starter_can_cancel(v: RegistryView, chat: i64, user: i64)
    requires
        spec_begin_upload(v, chat, Some(user)).1 == BeginUpload::Started,
    ensures
        ({
            let running = spec_register_trigger(spec_begin_upload(v, chat, Some(user)).0, chat);
            let (after, outcome) = spec_handle_cancel(running, chat, user);
            &&& outcome == CancelOutcome::Cancelled
            &&& after.locked.contains(chat)
            &&& !after.cancellable.contains(chat)
            &&& !after.starters.dom().contains(chat)
            &&& spec_handle_cancel(after, chat, user) == (after, CancelOutcome::Nothing)
        }),
{
}

} // verus!
