//! Notifications in batches, one for each kind of event, as the transports
//! send them.

use vstd::prelude::*;
use vstd::string::*;
use crate::models::notification::Notification;
use crate::seqs::{lemma_filter_none, lemma_filter_step};
use crate::text::{
    distinct_texts, escape_markdown, escape_markdown_text, text_views, without_repetition,
};

verus! {

/// The kind of event of a notification.
pub open spec fn event_of() -> spec_fn(Notification) -> Seq<char> {
    |n: Notification| n.event@
}

/// The kinds of event that occur, each once, in the order in which they
/// first occur.
pub open spec fn distinct_events(notifications: Seq<Notification>) -> Seq<Seq<char>> {
    distinct_texts(notifications.map_values(event_of()))
}

/// Whether a notification is of the given kind.
pub open spec fn has_event(event: Seq<char>) -> spec_fn(Notification) -> bool {
    |n: Notification| n.event@ == event
}

/// The notifications of one kind, in their order.
pub open spec fn batch_of(notifications: Seq<Notification>, event: Seq<char>) -> Seq<
    Notification,
> {
    notifications.filter(has_event(event))
}

/// The ending of a noun that counts `count` things.
pub open spec fn plural(count: nat) -> Seq<char> {
    if count > 1 {
        "s"@
    } else {
        ""@
    }
}

/// The title of a batch of `count` notifications of the given kind.
pub open spec fn topic_name(event: Seq<char>, count: nat) -> Seq<char> {
    if event == "add"@ {
        "New Domain"@ + plural(count)
    } else if event == "delete"@ {
        "Domain"@ + plural(count) + " Deleted"@
    } else if event == "change"@ {
        "Domain"@ + plural(count) + " Changed"@
    } else {
        "Unknown"@
    }
}

/// How a notification is written as one entry of a message.
#[derive(Clone, Copy, Debug, PartialEq, Eq, Structural)]
pub enum EntryStyle {
    /// The domain between asterisks.
    Starred,
    /// The domain between backticks.
    Ticked,
    /// The domain between backticks, as an item of a list.
    Bulleted,
    /// The domain in bold, then the message on the lines below.
    BoldWithMessage,
    /// The domain between backticks, then the escaped message on the lines
    /// below.
    TickedWithEscapedMessage,
}

/// One notification as an entry of a message.
pub open spec fn entry_text(style: EntryStyle, n: Notification) -> Seq<char> {
    match style {
        EntryStyle::Starred => "*"@ + n.domain@ + "*"@,
        EntryStyle::Ticked => "`"@ + n.domain@ + "`"@,
        EntryStyle::Bulleted => "- `"@ + n.domain@ + "`"@,
        EntryStyle::BoldWithMessage => "**"@ + n.domain@ + "**:\n"@ + n.message@,
        EntryStyle::TickedWithEscapedMessage => "`"@ + n.domain@ + "`:\n "@
            + escape_markdown_text(n.message@),
    }
}

/// The entry of a notification in a given style.
pub open spec fn styled(style: EntryStyle) -> spec_fn(Notification) -> Seq<char> {
    |n: Notification| entry_text(style, n)
}

/// The kinds of event that occur, each once, in the order in which they
/// first occur.
pub fn event_kinds(notifications: &[Notification]) -> (r: Vec<String>)
    ensures
        text_views(r@) == distinct_events(notifications@),
{
    let mut events: Vec<String> = Vec::new();
    let mut i: usize = 0;
    while i < notifications.len()
        invariant
            i <= notifications.len(),
            events.len() == i,
            forall|j: int| 0 <= j < i ==> (#[trigger] events[j])@ == notifications[j].event@,
        decreases notifications.len() - i,
    {
        events.push(notifications[i].event.clone());
        i += 1;
    }
    assert(text_views(events@) =~= notifications@.map_values(event_of()));
    without_repetition(&events)
}

/// Every notification is in the batch of one kind, no kind comes twice,
/// and no batch is empty: the batches part the notifications.
pub proof fn lemma_batches_part(notifications: Seq<Notification>)
    ensures
        distinct_events(notifications).no_duplicates(),
        forall|i: int|
            0 <= i < notifications.len() ==> distinct_events(notifications).contains(
                (#[trigger] notifications[i]).event@,
            ) && batch_of(notifications, notifications[i].event@).contains(notifications[i]),
        forall|k: int|
            0 <= k < distinct_events(notifications).len() ==> batch_of(
                notifications,
                #[trigger] distinct_events(notifications)[k],
            ).len() > 0,
{
    let events = notifications.map_values(event_of());
    let kinds = distinct_events(notifications);
    crate::order::lemma_distinct_texts(events);
    assert forall|i: int| 0 <= i < notifications.len() implies kinds.contains(
        (#[trigger] notifications[i]).event@,
    ) && batch_of(notifications, notifications[i].event@).contains(notifications[i]) by {
        assert(events[i] == notifications[i].event@);
        assert(events.contains(notifications[i].event@));
        notifications.lemma_filter_contains(has_event(notifications[i].event@), i);
    }
    assert forall|k: int| 0 <= k < kinds.len() implies batch_of(
        notifications,
        #[trigger] kinds[k],
    ).len() > 0 by {
        assert(kinds.contains(kinds[k]));
        assert(events.contains(kinds[k]));
        let i = choose|i: int| 0 <= i < events.len() && events[i] == kinds[k];
        assert(events[i] == notifications[i].event@);
        notifications.lemma_filter_contains(has_event(kinds[k]), i);
    }
}

/// The notifications of one kind, in their order.
pub fn batch(notifications: &[Notification], event: &str) -> (r: Vec<Notification>)
    ensures
        r@ == batch_of(notifications@, event@),
{
    let mut out: Vec<Notification> = Vec::new();
    let mut i: usize = 0;
    proof {
        lemma_filter_none(notifications@, has_event(event@));
    }
    while i < notifications.len()
        invariant
            i <= notifications.len(),
            out@ == notifications@.take(i as int).filter(has_event(event@)),
        decreases notifications.len() - i,
    {
        proof {
            lemma_filter_step(notifications@, i as int, has_event(event@));
        }
        if notifications[i].event.as_str().eq(event) {
            out.push(notifications[i].clone());
        }
        i += 1;
    }
    assert(notifications@.take(i as int) =~= notifications@);
    out
}

/// The title of a batch of `count` notifications of the given kind.
pub fn title(event: &str, count: usize) -> (r: String)
    ensures
        r@ == topic_name(event@, count as nat),
{
    let ending = if count > 1 {
        "s"
    } else {
        ""
    };
    if event.eq("add") {
        "New Domain".to_owned().concat(ending)
    } else if event.eq("delete") {
        let mut out = "Domain".to_owned();
        out.append(ending);
        out.append(" Deleted");
        out
    } else if event.eq("change") {
        let mut out = "Domain".to_owned();
        out.append(ending);
        out.append(" Changed");
        out
    } else {
        "Unknown".to_owned()
    }
}

/// One notification as an entry of a message.
pub fn entry(style: EntryStyle, n: &Notification) -> (r: String)
    ensures
        r@ == entry_text(style, *n),
{
    match style {
        EntryStyle::Starred => {
            let mut out = "*".to_owned();
            out.append(n.domain.as_str());
            out.append("*");
            out
        },
        EntryStyle::Ticked => {
            let mut out = "`".to_owned();
            out.append(n.domain.as_str());
            out.append("`");
            out
        },
        EntryStyle::Bulleted => {
            let mut out = "- `".to_owned();
            out.append(n.domain.as_str());
            out.append("`");
            out
        },
        EntryStyle::BoldWithMessage => {
            let mut out = "**".to_owned();
            out.append(n.domain.as_str());
            out.append("**:\n");
            out.append(n.message.as_str());
            out
        },
        EntryStyle::TickedWithEscapedMessage => {
            let escaped = escape_markdown(n.message.as_str());
            let mut out = "`".to_owned();
            out.append(n.domain.as_str());
            out.append("`:\n ");
            out.append(escaped.as_str());
            out
        },
    }
}

/// The entries of some notifications in one style, in their order.
pub fn entries(style: EntryStyle, notifications: &Vec<Notification>) -> (r: Vec<String>)
    ensures
        text_views(r@) == notifications@.map_values(styled(style)),
{
    let mut out: Vec<String> = Vec::new();
    let mut i: usize = 0;
    while i < notifications.len()
        invariant
            i <= notifications.len(),
            out.len() == i,
            forall|j: int|
                0 <= j < i ==> (#[trigger] out[j])@ == entry_text(style, notifications[j]),
        decreases notifications.len() - i,
    {
        out.push(entry(style, &notifications[i]));
        i += 1;
    }
    assert(text_views(out@) =~= notifications@.map_values(styled(style)));
    out
}

} // verus!
