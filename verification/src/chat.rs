//! The chat feed: a queue of events that is polled for its next items. The
//! feed is a small state machine. It holds a queue and the id of the last
//! event it consumed, or it holds none and must register one; an answer
//! that reports the queue as expired takes it from the first state to the
//! second.

use crate::decimal;
use crate::destination::Destination;
use crate::destination::ReplyTo;
use crate::event::Event;
use crate::event::InboundEvent;
use crate::event::Source;
use crate::json;
use crate::outbound;
use crate::scan;
use crate::scan::option_view;
use vstd::prelude::*;

verus! {

/// What the correlation id of a chat message begins with.
pub const CHAT_ID_PREFIX: &'static str = "zulip";

/// The error code by which the chat service reports an expired queue.
pub const EXPIRED_CODE: &'static str = "BAD_EVENT_QUEUE_ID";

/// The state of the feed.
#[derive(Debug, Clone, PartialEq, Eq)]
pub enum Feed {
    /// No queue is held: one must be registered.
    Expired,
    /// The queue `queue_id` is held, and `last_event_id` is the id of the
    /// last event consumed from it, if any was.
    Subscribed { queue_id: String, last_event_id: Option<u64> },
}

/// The mathematical value of a `Feed`.
pub enum FeedView {
    Expired,
    Subscribed { queue_id: Seq<char>, last_event_id: Option<u64> },
}

impl View for Feed {
    type V = FeedView;

    open spec fn view(&self) -> FeedView {
        match self {
            Feed::Expired => FeedView::Expired,
            Feed::Subscribed { queue_id, last_event_id } => FeedView::Subscribed {
                queue_id: queue_id@,
                last_event_id: *last_event_id,
            },
        }
    }
}

/// What the feed asks of the chat service next.
#[derive(Debug, Clone, PartialEq, Eq)]
pub enum FeedRequest {
    /// Register a queue: post `body` to `url`.
    Register { url: String, body: String },
    /// Wait for events: get `url`.
    Poll { url: String },
}

/// The mathematical value of a `FeedRequest`.
pub enum Ask {
    Register { url: Seq<char>, body: Seq<char> },
    Poll { url: Seq<char> },
}

impl View for FeedRequest {
    type V = Ask;

    open spec fn view(&self) -> Ask {
        match self {
            FeedRequest::Register { url, body } => Ask::Register { url: url@, body: body@ },
            FeedRequest::Poll { url } => Ask::Poll { url: url@ },
        }
    }
}

/// What the feed in state `feed` asks next: a queue where it holds none,
/// and else the events after the last one consumed.
pub open spec fn ask(feed: FeedView) -> Ask {
    match feed {
        FeedView::Expired => Ask::Register {
            url: outbound::REGISTER_URL@,
            body: outbound::REGISTER_BODY@,
        },
        FeedView::Subscribed { queue_id, last_event_id } => Ask::Poll {
            url: outbound::events_url(queue_id, last_event_id),
        },
    }
}

/// The state after the answer `answer` to a registration: the new queue is
/// held and nothing of it is consumed. An answer that names no queue leaves
/// the feed without one.
pub open spec fn registered(answer: Seq<char>) -> FeedView {
    match json::json_document(answer) {
        Some(reply) => match json::member_text(reply, "queue_id"@) {
            Some(queue_id) => FeedView::Subscribed { queue_id, last_event_id: None },
            None => FeedView::Expired,
        },
        None => FeedView::Expired,
    }
}

/// The event that a chat message amounts to, given the fields of the
/// message. Its id, content and sender are required. A message with a
/// channel is answered in its topic of that channel, which is then
/// required too; any other message is answered to its sender directly.
pub open spec fn message_event(
    id: Option<u64>,
    content: Option<Seq<char>>,
    sender_id: Option<u64>,
    channel_id: Option<u64>,
    topic: Option<Seq<char>>,
) -> Option<Event> {
    if id is None || content is None || sender_id is None {
        None
    } else if channel_id is Some && topic is None {
        None
    } else {
        Some(
            Event {
                source: Source::ChatMessage,
                destination: match channel_id {
                    Some(channel_id) => Destination::ChannelMessage { channel_id, topic: topic->0 },
                    None => Destination::DirectMessage { user_id: sender_id->0 },
                },
                correlation_id: CHAT_ID_PREFIX@ + decimal::decimal(id->0 as nat),
                raw_text: content,
            },
        )
    }
}

/// The event that the item `item` of the feed amounts to: that of its
/// message where its type is `message`, and none for any other item.
pub open spec fn item_event(item: serde_json::Value) -> Option<Event> {
    if json::member_text(item, "type"@) == Some("message"@) {
        match json::json_member(item, "message"@) {
            Some(message) => message_event(
                json::member_number(message, "id"@),
                json::member_text(message, "content"@),
                json::member_number(message, "sender_id"@),
                json::member_number(message, "stream_id"@),
                json::member_text(message, "subject"@),
            ),
            None => None,
        }
    } else {
        None
    }
}

/// The events that the items `items` of the feed amount to, in order.
pub open spec fn item_events(items: Seq<serde_json::Value>) -> Seq<Event>
    decreases items.len(),
{
    if items.len() == 0 {
        seq![]
    } else {
        match item_event(items.last()) {
            Some(event) => item_events(items.drop_last()).push(event),
            None => item_events(items.drop_last()),
        }
    }
}

/// The id of the last event consumed, after the items `items` on top of
/// `before`: every item with an id moves it on.
pub open spec fn cursor_after(before: Option<u64>, items: Seq<serde_json::Value>) -> Option<u64>
    decreases items.len(),
{
    if items.len() == 0 {
        before
    } else {
        match json::member_number(items.last(), "id"@) {
            Some(id) => Some(id),
            None => cursor_after(before, items.drop_last()),
        }
    }
}

/// Whether the answer `reply` to a poll reports the queue as expired.
pub open spec fn is_expired(reply: serde_json::Value) -> bool {
    json::member_text(reply, "code"@) == Some(EXPIRED_CODE@)
}

/// The items of the answer `reply` to a poll, where it has any.
pub open spec fn reply_items(reply: serde_json::Value) -> Option<Seq<serde_json::Value>> {
    match json::json_member(reply, "events"@) {
        Some(events) => json::json_items(events),
        None => None,
    }
}

/// The state of the feed and the events to act on, after the answer
/// `answer` to a poll of the queue `queue_id` at `last_event_id`. An expired
/// queue is given up, so that the next request registers a new one. Items
/// are consumed in order. An answer that cannot be read changes nothing.
pub open spec fn polled(queue_id: Seq<char>, last_event_id: Option<u64>, answer: Seq<char>) -> (
    FeedView,
    Seq<Event>,
) {
    let unchanged = (FeedView::Subscribed { queue_id, last_event_id }, Seq::<Event>::empty());
    match json::json_document(answer) {
        None => unchanged,
        Some(reply) => if is_expired(reply) {
            (FeedView::Expired, Seq::<Event>::empty())
        } else {
            match reply_items(reply) {
                None => unchanged,
                Some(items) => (
                    FeedView::Subscribed {
                        queue_id,
                        last_event_id: cursor_after(last_event_id, items),
                    },
                    item_events(items),
                ),
            }
        },
    }
}

/// The state of the feed and the events to act on, after the answer
/// `answer` to what the feed in state `feed` asked.
pub open spec fn answered(feed: FeedView, answer: Seq<char>) -> (FeedView, Seq<Event>) {
    match feed {
        FeedView::Expired => (registered(answer), Seq::<Event>::empty()),
        FeedView::Subscribed { queue_id, last_event_id } => polled(queue_id, last_event_id, answer),
    }
}

/// An item whose type is not `message` amounts to no event.
pub proof fn lemma_other_item(item: serde_json::Value)
    requires
        json::member_text(item, "type"@) != Some("message"@),
    ensures
        item_event(item) is None,
{
}

/// An item whose type is `message` amounts to what its message amounts to:
/// an event of the chat that answers to the channel and topic of the
/// message, or to its sender, is correlated by the id of the message, and
/// carries its content.
pub proof fn lemma_message_item(item: serde_json::Value, message: serde_json::Value)
    requires
        json::member_text(item, "type"@) == Some("message"@),
        json::json_member(item, "message"@) == Some(message),
    ensures
        item_event(item) == message_event(
            json::member_number(message, "id"@),
            json::member_text(message, "content"@),
            json::member_number(message, "sender_id"@),
            json::member_number(message, "stream_id"@),
            json::member_text(message, "subject"@),
        ),
        item_event(item) matches Some(event) ==> {
            &&& event.source == Source::ChatMessage
            &&& event.raw_text == json::member_text(message, "content"@)
            &&& event.correlation_id == CHAT_ID_PREFIX@ + decimal::decimal(
                json::member_number(message, "id"@)->0 as nat,
            )
            &&& event.destination == (match json::member_number(message, "stream_id"@) {
                Some(channel_id) => Destination::ChannelMessage {
                    channel_id,
                    topic: json::member_text(message, "subject"@)->0,
                },
                None => Destination::DirectMessage {
                    user_id: json::member_number(message, "sender_id"@)->0,
                },
            })
        },
{
}

/// Consuming one more item: its event, if it amounts to one, comes after
/// the events before it, and its id, if it has one, is the last consumed.
/// An item that amounts to no event moves nothing but the cursor.
pub proof fn lemma_item_consumed(
    before: Option<u64>,
    items: Seq<serde_json::Value>,
    item: serde_json::Value,
)
    ensures
        item_events(items.push(item)) == (match item_event(item) {
            Some(event) => item_events(items).push(event),
            None => item_events(items),
        }),
        cursor_after(before, items.push(item)) == (match json::member_number(item, "id"@) {
            Some(id) => Some(id),
            None => cursor_after(before, items),
        }),
{
    assert(items.push(item).drop_last() == items);
    assert(items.push(item).last() == item);
}

/// What each of the events in `events` is.
pub open spec fn event_views(events: Seq<InboundEvent>) -> Seq<Event> {
    Seq::new(events.len(), |i: int| events[i]@)
}

/// The view of an optional event.
pub open spec fn optional_event(event: Option<InboundEvent>) -> Option<Event> {
    match event {
        Some(event) => Some(event@),
        None => None,
    }
}

/// The event that a chat message amounts to, given the fields of the
/// message.
pub fn message_received(
    id: Option<u64>,
    content: Option<String>,
    sender_id: Option<u64>,
    channel_id: Option<u64>,
    topic: Option<String>,
) -> (r: Option<InboundEvent>)
    ensures
        optional_event(r) == message_event(
            id,
            option_view(content),
            sender_id,
            channel_id,
            option_view(topic),
        ),
{
    match (id, content, sender_id) {
        (Some(id), Some(content), Some(sender_id)) => {
            let destination = match channel_id {
                Some(channel_id) => match topic {
                    Some(topic) => ReplyTo::ChannelMessage { channel_id, topic },
                    None => {
                        return None;
                    },
                },
                None => ReplyTo::DirectMessage { user_id: sender_id },
            };
            let mut correlation_id = String::from_str(CHAT_ID_PREFIX);
            decimal::push_decimal(&mut correlation_id, id);
            Some(
                InboundEvent {
                    source: Source::ChatMessage,
                    destination,
                    correlation_id,
                    raw_text: Some(content),
                },
            )
        },
        _ => None,
    }
}

/// The event that one item of the feed amounts to.
fn read_item(item: &serde_json::Value) -> (r: Option<InboundEvent>)
    ensures
        optional_event(r) == item_event(*item),
{
    let is_message = match json::text_of(item, "type") {
        Some(kind) => scan::same_text(kind.as_str(), "message"),
        None => false,
    };
    if !is_message {
        return None;
    }
    match json::member(item, "message") {
        Some(message) => message_received(
            json::number_of(message, "id"),
            json::text_of(message, "content"),
            json::number_of(message, "sender_id"),
            json::number_of(message, "stream_id"),
            json::text_of(message, "subject"),
        ),
        None => None,
    }
}

/// What the feed asks of the chat service next.
pub fn next_request(feed: &Feed) -> (r: FeedRequest)
    ensures
        r@ == ask(feed@),
{
    match feed {
        Feed::Expired => FeedRequest::Register {
            url: String::from_str(outbound::REGISTER_URL),
            body: String::from_str(outbound::REGISTER_BODY),
        },
        Feed::Subscribed { queue_id, last_event_id } => FeedRequest::Poll {
            url: outbound::poll_url(queue_id.as_str(), *last_event_id),
        },
    }
}

/// The state of the feed after the answer to a registration.
fn on_registered(answer: &str) -> (r: Feed)
    ensures
        r@ == registered(answer@),
{
    match json::parse(answer) {
        Ok(reply) => match json::text_of(&reply, "queue_id") {
            Some(queue_id) => Feed::Subscribed { queue_id, last_event_id: None },
            None => Feed::Expired,
        },
        Err(_) => Feed::Expired,
    }
}

/// The state of the feed and the events to act on, after the answer to a
/// poll.
fn on_polled(queue_id: String, last_event_id: Option<u64>, answer: &str) -> (r: (
    Feed,
    Vec<InboundEvent>,
))
    ensures
        (r.0@, event_views(r.1@)) == polled(queue_id@, last_event_id, answer@),
{
    let mut events: Vec<InboundEvent> = Vec::new();
    assert(event_views(events@) =~= Seq::<Event>::empty());
    let reply = match json::parse(answer) {
        Ok(reply) => reply,
        Err(_) => {
            return (Feed::Subscribed { queue_id, last_event_id }, events);
        },
    };
    let expired = match json::text_of(&reply, "code") {
        Some(code) => scan::same_text(code.as_str(), EXPIRED_CODE),
        None => false,
    };
    if expired {
        return (Feed::Expired, events);
    }
    let items = match json::member(&reply, "events") {
        Some(listed) => match listed.as_array() {
            Some(items) => items,
            None => {
                return (Feed::Subscribed { queue_id, last_event_id }, events);
            },
        },
        None => {
            return (Feed::Subscribed { queue_id, last_event_id }, events);
        },
    };
    let mut cursor = last_event_id;
    let mut i: usize = 0;
    assert(items@.take(0) =~= Seq::<serde_json::Value>::empty());
    while i < items.len()
        invariant
            i <= items.len(),
            cursor == cursor_after(last_event_id, items@.take(i as int)),
            event_views(events@) == item_events(items@.take(i as int)),
        decreases items.len() - i,
    {
        let item = &items[i];
        proof {
            let seen = items@.take(i + 1);
            assert(seen.drop_last() == items@.take(i as int));
            assert(seen.last() == *item);
        }
        match json::number_of(item, "id") {
            Some(id) => {
                cursor = Some(id);
            },
            None => {},
        }
        let ghost before = event_views(events@);
        match read_item(item) {
            Some(event) => {
                events.push(event);
                assert(event_views(events@) =~= before.push(event@));
            },
            None => {},
        }
        i += 1;
    }
    assert(items@.take(i as int) == items@);
    (Feed::Subscribed { queue_id, last_event_id: cursor }, events)
}

/// The state of the feed and the events to act on, after the answer
/// `answer` to what the feed asked last.
pub fn on_answer(feed: Feed, answer: &str) -> (r: (Feed, Vec<InboundEvent>))
    ensures
        (r.0@, event_views(r.1@)) == answered(feed@, answer@),
{
    match feed {
        Feed::Expired => {
            let events: Vec<InboundEvent> = Vec::new();
            assert(event_views(events@) =~= Seq::<Event>::empty());
            (on_registered(answer), events)
        },
        Feed::Subscribed { queue_id, last_event_id } => on_polled(queue_id, last_event_id, answer),
    }
}

} // verus!
