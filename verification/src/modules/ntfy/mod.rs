//! Ntfy: one message for each kind of event.

use vstd::prelude::*;
use vstd::string::*;
use crate::models::notification::Notification;
use crate::modules::batches::{
    batch, batch_of, distinct_events, entries, event_kinds, styled, title, topic_name, EntryStyle,
};
use crate::text::{join, join_texts, text_views};

verus! {

#[derive(Debug)]
pub struct NtfyConfig {
    pub url: String,
    pub topic: String,
    pub username: String,
    pub password: String,
}

/// Where the messages go, and under which name of the account.
#[derive(Debug)]
pub struct NtfyService {
    pub url: String,
    pub username: String,
    pub password: String,
    pub topic: String,
}

/// One message for Ntfy, written in Markdown.
#[derive(Debug)]
pub struct NtfyPayload {
    pub topic: String,
    pub title: String,
    pub message: String,
    pub markdown: bool,
}

/// What a message stands for.
pub ghost struct NtfyPayloadView {
    pub topic: Seq<char>,
    pub title: Seq<char>,
    pub message: Seq<char>,
    pub markdown: bool,
}

impl View for NtfyPayload {
    type V = NtfyPayloadView;

    open spec fn view(&self) -> NtfyPayloadView {
        NtfyPayloadView {
            topic: self.topic@,
            title: self.title@,
            message: self.message@,
            markdown: self.markdown,
        }
    }
}

/// The views of some messages, in order.
pub open spec fn payload_views(payloads: Seq<NtfyPayload>) -> Seq<NtfyPayloadView> {
    payloads.map_values(|p: NtfyPayload| p@)
}

/// The text of the message for a batch of one kind. Changes are named in
/// one line and then given each with its message; additions and deletions
/// are a list of names.
pub open spec fn ntfy_message(event: Seq<char>, batch: Seq<Notification>) -> Seq<char> {
    if event == "change"@ {
        join_texts(batch.map_values(styled(EntryStyle::Starred)), ", "@) + "\n\n"@ + join_texts(
            batch.map_values(styled(EntryStyle::BoldWithMessage)),
            "\n\n"@,
        )
    } else if event == "add"@ || event == "delete"@ {
        join_texts(batch.map_values(styled(EntryStyle::Bulleted)), "\n"@)
    } else {
        join_texts(batch.map_values(styled(EntryStyle::Ticked)), "\n"@)
    }
}

/// The message for the notifications of one kind.
pub open spec fn ntfy_payload(
    topic: Seq<char>,
    notifications: Seq<Notification>,
    event: Seq<char>,
) -> NtfyPayloadView {
    NtfyPayloadView {
        topic,
        title: topic_name(event, batch_of(notifications, event).len()),
        message: ntfy_message(event, batch_of(notifications, event)),
        markdown: true,
    }
}

/// The messages for some notifications: one for each kind of event, in the
/// order in which the kinds first occur.
pub open spec fn ntfy_payloads(topic: Seq<char>, notifications: Seq<Notification>) -> Seq<
    NtfyPayloadView,
> {
    distinct_events(notifications).map_values(
        |event: Seq<char>| ntfy_payload(topic, notifications, event),
    )
}

/// The text of the message for a batch of one kind.
pub fn message_of(event: &str, batch: &Vec<Notification>) -> (r: String)
    ensures
        r@ == ntfy_message(event@, batch@),
{
    if event.eq("change") {
        let heads = entries(EntryStyle::Starred, batch);
        let bodies = entries(EntryStyle::BoldWithMessage, batch);
        let mut out = join(&heads, ", ");
        out.append("\n\n");
        let rest = join(&bodies, "\n\n");
        out.append(rest.as_str());
        out
    } else if event.eq("add") || event.eq("delete") {
        let items = entries(EntryStyle::Bulleted, batch);
        join(&items, "\n")
    } else {
        let items = entries(EntryStyle::Ticked, batch);
        join(&items, "\n")
    }
}

impl NtfyService {
    /// The service that a configuration describes.
    pub fn init(config: NtfyConfig) -> (r: Self)
        ensures
            r.url == config.url,
            r.username == config.username,
            r.password == config.password,
            r.topic == config.topic,
    {
        Self {
            url: config.url,
            username: config.username,
            password: config.password,
            topic: config.topic,
        }
    }

    /// The messages to send for some notifications: one for each kind of
    /// event, in the order in which the kinds first occur.
    pub fn payloads(&self, notifications: Vec<Notification>) -> (r: Vec<NtfyPayload>)
        ensures
            payload_views(r@) == ntfy_payloads(self.topic@, notifications@),
    {
        let kinds = event_kinds(notifications.as_slice());
        let mut out: Vec<NtfyPayload> = Vec::new();
        let mut i: usize = 0;
        while i < kinds.len()
            invariant
                i <= kinds.len(),
                out.len() == i,
                text_views(kinds@) == distinct_events(notifications@),
                forall|j: int|
                    0 <= j < i ==> (#[trigger] out[j])@ == ntfy_payload(
                        self.topic@,
                        notifications@,
                        kinds[j]@,
                    ),
            decreases kinds.len() - i,
        {
            let event = kinds[i].as_str();
            let group = batch(notifications.as_slice(), event);
            out.push(
                NtfyPayload {
                    topic: self.topic.clone(),
                    title: title(event, group.len()),
                    message: message_of(event, &group),
                    markdown: true,
                },
            );
            i += 1;
        }
        proof {
            assert(text_views(kinds@).len() == kinds@.len());
            assert forall|j: int| 0 <= j < kinds@.len() implies text_views(kinds@)[j]
                == kinds[j]@ by {}
            assert(payload_views(out@) =~= ntfy_payloads(self.topic@, notifications@));
        }
        out
    }
}

} // verus!
