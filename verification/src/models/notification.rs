//! The record of something that happened to a domain.

use vstd::prelude::*;
use crate::time::Timestamp;

verus! {

/// A stored notification: what happened (`add`, `delete` or `change`) to
/// which domain, with the message for its owner.
#[derive(Debug)]
pub struct Notification {
    pub id: i64,
    pub domain: String,
    pub event: String,
    pub message: String,
    pub created_at: Timestamp,
}

/// A notification that is yet to be stored.
#[derive(Debug)]
pub struct NotificationDraft {
    pub domain: String,
    pub event: String,
    pub message: String,
}

/// What a draft stands for.
pub ghost struct DraftView {
    pub domain: Seq<char>,
    pub event: Seq<char>,
    pub message: Seq<char>,
}

impl View for NotificationDraft {
    type V = DraftView;

    open spec fn view(&self) -> DraftView {
        DraftView { domain: self.domain@, event: self.event@, message: self.message@ }
    }
}

/// The views of some drafts, in order.
pub open spec fn draft_views(drafts: Seq<NotificationDraft>) -> Seq<DraftView> {
    drafts.map_values(|d: NotificationDraft| d@)
}

impl Clone for Notification {
    fn clone(&self) -> (r: Notification)
        ensures
            r == *self,
    {
        Notification {
            id: self.id,
            domain: self.domain.clone(),
            event: self.event.clone(),
            message: self.message.clone(),
            created_at: self.created_at,
        }
    }
}

impl NotificationDraft {
    /// The notification that the store made of the draft, under the given
    /// number and instant.
    pub fn stored(self, id: i64, created_at: Timestamp) -> (r: Notification)
        ensures
            r.id == id,
            r.created_at == created_at,
            r.domain == self.domain,
            r.event == self.event,
            r.message == self.message,
    {
        Notification {
            id,
            domain: self.domain,
            event: self.event,
            message: self.message,
            created_at,
        }
    }
}

} // verus!
