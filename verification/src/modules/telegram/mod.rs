//! Telegram: one message with a block for each kind of event.

use vstd::prelude::*;
use vstd::string::*;
use crate::models::notification::Notification;
use crate::modules::batches::{
    batch, batch_of, distinct_events, entries, event_kinds, styled, title, topic_name, EntryStyle,
};
use crate::text::{join, join_texts, text_views};

verus! {

#[derive(Debug)]
pub struct TelegramConfig {
    pub token: String,
    pub chat_id: i64,
}

/// The lines below the title of a block. Changes come each with its
/// message, escaped for Markdown; anything else is a list of names.
pub open spec fn telegram_lines(event: Seq<char>, batch: Seq<Notification>) -> Seq<char> {
    if event == "change"@ {
        join_texts(batch.map_values(styled(EntryStyle::TickedWithEscapedMessage)), "\n"@)
    } else {
        join_texts(batch.map_values(styled(EntryStyle::Ticked)), "\n"@)
    }
}

/// The block for the notifications of one kind: the title in bold, then
/// the lines.
pub open spec fn telegram_block(notifications: Seq<Notification>, event: Seq<char>) -> Seq<char> {
    "**"@ + topic_name(event, batch_of(notifications, event).len()) + "**\n"@ + telegram_lines(
        event,
        batch_of(notifications, event),
    )
}

/// The message for some notifications: a block for each kind of event, in
/// the order in which the kinds first occur, with an empty line between
/// each two.
pub open spec fn telegram_message(notifications: Seq<Notification>) -> Seq<char> {
    join_texts(
        distinct_events(notifications).map_values(
            |event: Seq<char>| telegram_block(notifications, event),
        ),
        "\n\n"@,
    )
}

/// The lines below the title of a block.
pub fn lines_of(event: &str, batch: &Vec<Notification>) -> (r: String)
    ensures
        r@ == telegram_lines(event@, batch@),
{
    if event.eq("change") {
        let items = entries(EntryStyle::TickedWithEscapedMessage, batch);
        join(&items, "\n")
    } else {
        let items = entries(EntryStyle::Ticked, batch);
        join(&items, "\n")
    }
}

/// The message to send for some notifications.
pub fn message_for(notifications: Vec<Notification>) -> (r: String)
    ensures
        r@ == telegram_message(notifications@),
{
    let kinds = event_kinds(notifications.as_slice());
    let mut blocks: Vec<String> = Vec::new();
    let mut i: usize = 0;
    while i < kinds.len()
        invariant
            i <= kinds.len(),
            blocks.len() == i,
            text_views(kinds@) == distinct_events(notifications@),
            forall|j: int|
                0 <= j < i ==> (#[trigger] blocks[j])@ == telegram_block(notifications@, kinds[j]@),
        decreases kinds.len() - i,
    {
        let event = kinds[i].as_str();
        let group = batch(notifications.as_slice(), event);
        let heading = title(event, group.len());
        let lines = lines_of(event, &group);
        let mut block = "**".to_owned();
        block.append(heading.as_str());
        block.append("**\n");
        block.append(lines.as_str());
        blocks.push(block);
        i += 1;
    }
    proof {
        assert(text_views(kinds@).len() == kinds@.len());
        assert forall|j: int| 0 <= j < kinds@.len() implies text_views(kinds@)[j] == kinds[j]@ by {}
        assert(text_views(blocks@) =~= distinct_events(notifications@).map_values(
            |event: Seq<char>| telegram_block(notifications@, event),
        ));
    }
    join(&blocks, "\n\n")
}

} // verus!
