use bisect_bot::chat::{message_received, next_request, on_answer, Feed, FeedRequest};
use bisect_bot::destination::ReplyTo;
use bisect_bot::dispatch::Reply;
use bisect_bot::event::{InboundEvent, Source};
use bisect_bot::outbound::{delivery, lookup_url, poll_url, Outbound};

fn subscribed(queue_id: &str, last_event_id: Option<u64>) -> Feed {
    Feed::Subscribed { queue_id: queue_id.to_string(), last_event_id }
}

fn chat_event(destination: ReplyTo, id: &str, text: &str) -> InboundEvent {
    InboundEvent {
        source: Source::ChatMessage,
        destination,
        correlation_id: id.to_string(),
        raw_text: Some(text.to_string()),
    }
}

#[test]
fn an_expired_feed_registers() {
    assert_eq!(
        next_request(&Feed::Expired),
        FeedRequest::Register {
            url: "https://rust-lang.zulipchat.com/api/v1/register".to_string(),
            body: "event_types=%5B%22message%22%5D".to_string(),
        }
    );
}

#[test]
fn a_subscribed_feed_polls_from_its_cursor() {
    assert_eq!(
        next_request(&subscribed("1517975029:0", None)),
        FeedRequest::Poll {
            url: "https://rust-lang.zulipchat.com/api/v1/events?queue_id=1517975029%3A0&last_event_id=-1&dont_block=false".to_string(),
        }
    );
    assert_eq!(
        poll_url("abc", Some(17)),
        "https://rust-lang.zulipchat.com/api/v1/events?queue_id=abc&last_event_id=17&dont_block=false"
    );
}

#[test]
fn registration_starts_before_the_first_event() {
    assert_eq!(
        on_answer(Feed::Expired, "{\"result\": \"success\", \"queue_id\": \"15:1\", \"last_event_id\": -1}"),
        (subscribed("15:1", None), vec![])
    );
    assert_eq!(on_answer(Feed::Expired, "{\"result\": \"error\"}"), (Feed::Expired, vec![]));
    assert_eq!(on_answer(Feed::Expired, "<html>"), (Feed::Expired, vec![]));
}

#[test]
fn an_expired_queue_is_given_up() {
    let answer = "{\"result\": \"error\", \"msg\": \"Bad event queue id: 15:1\", \"code\": \"BAD_EVENT_QUEUE_ID\", \"queue_id\": \"15:1\"}";
    assert_eq!(on_answer(subscribed("15:1", Some(40)), answer), (Feed::Expired, vec![]));
    let (feed, events) = on_answer(Feed::Expired, "{\"queue_id\": \"16:2\"}");
    assert!(events.is_empty());
    assert_eq!(feed, subscribed("16:2", None));
}

#[test]
fn the_code_in_a_message_does_not_expire_the_queue() {
    let answer = "{\"result\": \"success\", \"events\": [{\"type\": \"message\", \"id\": 3, \"message\": {\"id\": 8, \"content\": \"BAD_EVENT_QUEUE_ID\", \"sender_id\": 2, \"subject\": \"\"}}]}";
    assert_eq!(
        on_answer(subscribed("q", None), answer),
        (
            subscribed("q", Some(3)),
            vec![chat_event(ReplyTo::DirectMessage { user_id: 2 }, "zulip8", "BAD_EVENT_QUEUE_ID")]
        )
    );
}

#[test]
fn items_are_consumed_in_order() {
    let answer = "{\"result\": \"success\", \"events\": [\
        {\"type\": \"heartbeat\", \"id\": 4},\
        {\"type\": \"message\", \"id\": 5, \"message\": {\"id\": 100, \"content\": \"bisect-bot bisect end=a\", \"sender_full_name\": \"A\", \"sender_id\": 21, \"type\": \"stream\", \"stream_id\": 7, \"subject\": \"help wanted\"}},\
        {\"type\": \"presence\", \"id\": 6},\
        {\"type\": \"message\", \"id\": 7, \"message\": {\"id\": 101, \"content\": \"hello\", \"sender_full_name\": \"B\", \"sender_id\": 22, \"type\": \"private\", \"subject\": \"\"}},\
        {\"type\": \"something new\"}\
    ]}";
    assert_eq!(
        on_answer(subscribed("q", Some(3)), answer),
        (
            subscribed("q", Some(7)),
            vec![
                chat_event(
                    ReplyTo::ChannelMessage { channel_id: 7, topic: "help wanted".to_string() },
                    "zulip100",
                    "bisect-bot bisect end=a"
                ),
                chat_event(ReplyTo::DirectMessage { user_id: 22 }, "zulip101", "hello"),
            ]
        )
    );
}

#[test]
fn an_answer_without_items_changes_nothing() {
    assert_eq!(
        on_answer(subscribed("q", Some(3)), "{\"result\": \"success\", \"events\": []}"),
        (subscribed("q", Some(3)), vec![])
    );
    assert_eq!(
        on_answer(subscribed("q", Some(3)), "{\"result\": \"success\"}"),
        (subscribed("q", Some(3)), vec![])
    );
    assert_eq!(
        on_answer(subscribed("q", Some(3)), "{\"events\": {\"id\": 9}}"),
        (subscribed("q", Some(3)), vec![])
    );
    assert_eq!(on_answer(subscribed("q", None), "gateway timeout"), (subscribed("q", None), vec![]));
}

#[test]
fn a_message_without_required_fields_only_moves_the_cursor() {
    let answer = "{\"events\": [{\"type\": \"message\", \"id\": 9, \"message\": {\"id\": 1, \"sender_id\": 2}}, {\"type\": \"message\", \"id\": 10}]}";
    assert_eq!(on_answer(subscribed("q", None), answer), (subscribed("q", Some(10)), vec![]));
}

#[test]
fn message_fields() {
    assert_eq!(
        message_received(Some(1), Some("hi".to_string()), Some(2), Some(3), Some("t".to_string())),
        Some(chat_event(
            ReplyTo::ChannelMessage { channel_id: 3, topic: "t".to_string() },
            "zulip1",
            "hi"
        ))
    );
    assert_eq!(
        message_received(Some(1), Some("hi".to_string()), Some(2), None, Some("t".to_string())),
        Some(chat_event(ReplyTo::DirectMessage { user_id: 2 }, "zulip1", "hi"))
    );
    assert_eq!(message_received(Some(1), Some("hi".to_string()), Some(2), Some(3), None), None);
    assert_eq!(message_received(None, Some("hi".to_string()), Some(2), None, None), None);
    assert_eq!(message_received(Some(1), None, Some(2), None, None), None);
    assert_eq!(message_received(Some(1), Some("hi".to_string()), None, None, None), None);
}

#[test]
fn a_reply_to_an_issue() {
    assert_eq!(
        delivery(Reply {
            to: ReplyTo::IssueComment { repo: "a/b".to_string(), issue_number: 12 },
            text: "started bisection".to_string(),
        }),
        Outbound::IssueComment {
            url: "https://api.github.com/repos/a/b/issues/12/comments".to_string(),
            text: "started bisection".to_string(),
        }
    );
}

#[test]
fn a_reply_to_a_channel() {
    assert_eq!(
        delivery(Reply {
            to: ReplyTo::ChannelMessage { channel_id: 7, topic: "help & more".to_string() },
            text: "bisect result: https://github.com/runs/99".to_string(),
        }),
        Outbound::ChatMessage {
            url: "https://rust-lang.zulipchat.com/api/v1/messages?type=stream&to=%5B7%5D&subject=help%20%26%20more&content=bisect%20result%3A%20https%3A%2F%2Fgithub%2Ecom%2Fruns%2F99".to_string(),
        }
    );
}

#[test]
fn a_reply_to_a_user() {
    assert_eq!(
        delivery(Reply {
            to: ReplyTo::DirectMessage { user_id: 22 },
            text: "d\u{e9}j\u{e0} vu_\u{1F600}~\n".to_string(),
        }),
        Outbound::ChatMessage {
            url: "https://rust-lang.zulipchat.com/api/v1/messages?type=private&to=%5B22%5D&content=d%C3%A9j%C3%A0%20vu%5F%F0%9F%98%80%7E%0A".to_string(),
        }
    );
}

#[test]
fn the_address_of_a_commit() {
    assert_eq!(
        lookup_url("abc123"),
        "https://api.github.com/repos/bjorn3/cargo-bisect-rustc-bot-jobs/git/commits/abc123"
    );
}
