//! Inbound events in one uniform shape, and the rules that turn a webhook
//! delivery of the issue tracker into an event or discard it.

use crate::decimal;
use crate::destination;
use crate::destination::DecodeError;
use crate::destination::Destination;
use crate::destination::ReplyTo;
use crate::json;
use crate::scan;
use crate::scan::option_view;
use vstd::prelude::*;

verus! {

/// Where an event came from.
#[derive(Debug, Clone, Copy, PartialEq, Eq)]
pub enum Source {
    /// A comment on an issue.
    GithubComment,
    /// A check run of the job repository.
    GithubCheckRun,
    /// A message of the chat service.
    ChatMessage,
}

/// One inbound event. An event with `raw_text` asks for something; one
/// without reports that a job is done.
#[derive(Debug, Clone, PartialEq, Eq)]
pub struct InboundEvent {
    pub source: Source,
    pub destination: ReplyTo,
    pub correlation_id: String,
    pub raw_text: Option<String>,
}

/// The mathematical value of an `InboundEvent`.
pub struct Event {
    pub source: Source,
    pub destination: Destination,
    pub correlation_id: Seq<char>,
    pub raw_text: Option<Seq<char>>,
}

impl View for InboundEvent {
    type V = Event;

    open spec fn view(&self) -> Event {
        Event {
            source: self.source,
            destination: self.destination@,
            correlation_id: self.correlation_id@,
            raw_text: option_view(self.raw_text),
        }
    }
}

/// A check run that has completed, as far as a reply needs it.
#[derive(Debug, Clone, PartialEq, Eq)]
pub struct CheckRun {
    pub id: u64,
    pub head_sha: String,
    pub html_url: String,
}

/// The mathematical value of a `CheckRun`.
pub struct Run {
    pub id: u64,
    pub head_sha: Seq<char>,
    pub html_url: Seq<char>,
}

impl View for CheckRun {
    type V = Run;

    open spec fn view(&self) -> Run {
        Run { id: self.id, head_sha: self.head_sha@, html_url: self.html_url@ }
    }
}

/// Why a delivery leads to nothing.
#[derive(Debug, Clone, Copy, PartialEq, Eq)]
pub enum Discard {
    /// The payload is no JSON document.
    NotJson,
    /// The payload does not name its repository.
    NoRepository,
    /// The repository is not one of those that may ask.
    WrongRepository,
    /// The announced kind is neither an issue comment nor a check run.
    UnknownEvent,
    /// A field that the kind requires is missing or of the wrong type.
    MissingField,
    /// The action is not the one that the kind is acted on for.
    OtherAction,
}

/// What a webhook delivery amounts to.
#[derive(Debug, Clone, PartialEq, Eq)]
pub enum Delivery {
    /// A new comment: an event with its text.
    Request(InboundEvent),
    /// A completed check run, whose commit names the destination.
    Completed(CheckRun),
    /// Nothing to act on.
    Discarded(Discard),
}

/// The mathematical value of a `Delivery`.
pub enum Outcome {
    Request(Event),
    Completed(Run),
    Discarded(Discard),
}

impl View for Delivery {
    type V = Outcome;

    open spec fn view(&self) -> Outcome {
        match self {
            Delivery::Request(event) => Outcome::Request(event@),
            Delivery::Completed(run) => Outcome::Completed(run@),
            Delivery::Discarded(reason) => Outcome::Discarded(*reason),
        }
    }
}

/// Whether deliveries from `repo` are acted on.
pub open spec fn is_allowed(repo: Seq<char>) -> bool {
    repo == "bjorn3/cargo-bisect-rustc-bot"@ || repo == "bjorn3/cargo-bisect-rustc-bot-jobs"@
}

/// What a delivery of kind `issue_comment` from the allowed repository
/// `repo` amounts to, given the fields of its payload. All of them are
/// required, and only the action `created` is acted on. The event replies
/// to the issue, is correlated by the comment's id in decimal notation, and
/// carries the comment's body.
pub open spec fn comment_outcome(
    repo: Seq<char>,
    action: Option<Seq<char>>,
    issue_number: Option<u64>,
    comment_id: Option<u64>,
    body: Option<Seq<char>>,
    sender: Option<Seq<char>>,
) -> Outcome {
    if action is None || issue_number is None || comment_id is None || body is None || sender
        is None {
        Outcome::Discarded(Discard::MissingField)
    } else if action->0 != "created"@ {
        Outcome::Discarded(Discard::OtherAction)
    } else {
        Outcome::Request(
            Event {
                source: Source::GithubComment,
                destination: Destination::IssueComment { repo, issue_number: issue_number->0 },
                correlation_id: decimal::decimal(comment_id->0 as nat),
                raw_text: body,
            },
        )
    }
}

/// What a delivery of kind `check_run` amounts to, given the fields of its
/// payload. All of them are required, and only the action `completed` is
/// acted on.
pub open spec fn check_run_outcome(
    action: Option<Seq<char>>,
    id: Option<u64>,
    head_sha: Option<Seq<char>>,
    html_url: Option<Seq<char>>,
) -> Outcome {
    if action is None || id is None || head_sha is None || html_url is None {
        Outcome::Discarded(Discard::MissingField)
    } else if action->0 != "completed"@ {
        Outcome::Discarded(Discard::OtherAction)
    } else {
        Outcome::Completed(Run { id: id->0, head_sha: head_sha->0, html_url: html_url->0 })
    }
}

/// What the payload `payload` of a delivery of kind `kind` amounts to.
pub open spec fn payload_outcome(kind: Seq<char>, payload: serde_json::Value) -> Outcome {
    match json::nested_text(payload, "repository"@, "full_name"@) {
        None => Outcome::Discarded(Discard::NoRepository),
        Some(repo) => if !is_allowed(repo) {
            Outcome::Discarded(Discard::WrongRepository)
        } else if kind == "issue_comment"@ {
            comment_outcome(
                repo,
                json::member_text(payload, "action"@),
                json::nested_number(payload, "issue"@, "number"@),
                json::nested_number(payload, "comment"@, "id"@),
                json::nested_text(payload, "comment"@, "body"@),
                json::nested_text(payload, "sender"@, "login"@),
            )
        } else if kind == "check_run"@ {
            check_run_outcome(
                json::member_text(payload, "action"@),
                json::nested_number(payload, "check_run"@, "id"@),
                json::nested_text(payload, "check_run"@, "head_sha"@),
                json::nested_text(payload, "check_run"@, "html_url"@),
            )
        } else {
            Outcome::Discarded(Discard::UnknownEvent)
        },
    }
}

/// What a delivery of kind `kind` with the body `body` amounts to.
pub open spec fn webhook_outcome(kind: Seq<char>, body: Seq<char>) -> Outcome {
    match json::json_document(body) {
        None => Outcome::Discarded(Discard::NotJson),
        Some(payload) => payload_outcome(kind, payload),
    }
}

/// The event that a completed check run amounts to, once the message of its
/// commit is at hand: a report to the destination that the message carries,
/// correlated by the check run's id in decimal notation.
pub open spec fn completion_event(run: Run, message: Seq<char>) -> Result<Event, DecodeError> {
    match destination::decode(message) {
        Ok(destination) => Ok(
            Event {
                source: Source::GithubCheckRun,
                destination,
                correlation_id: decimal::decimal(run.id as nat),
                raw_text: None,
            },
        ),
        Err(e) => Err(e),
    }
}

/// The view of an event or the reason why there is none.
pub open spec fn event_view(r: Result<InboundEvent, DecodeError>) -> Result<Event, DecodeError> {
    match r {
        Ok(event) => Ok(event@),
        Err(e) => Err(e),
    }
}

/// What the sender of a discarded delivery is answered.
pub open spec fn discard_answer(reason: Discard) -> Seq<char> {
    match reason {
        Discard::NotJson => "not json"@,
        Discard::NoRepository => "missing repo"@,
        Discard::WrongRepository => "wrong repo"@,
        Discard::UnknownEvent => "unknown event"@,
        Discard::MissingField => "processed"@,
        Discard::OtherAction => "processed"@,
    }
}

/// What the sender of a discarded delivery is answered.
pub fn answer(reason: Discard) -> (r: &'static str)
    ensures
        r@ == discard_answer(reason),
{
    match reason {
        Discard::NotJson => "not json",
        Discard::NoRepository => "missing repo",
        Discard::WrongRepository => "wrong repo",
        Discard::UnknownEvent => "unknown event",
        Discard::MissingField => "processed",
        Discard::OtherAction => "processed",
    }
}

/// Whether deliveries from `repo` are acted on.
pub fn allowed(repo: &str) -> (r: bool)
    ensures
        r == is_allowed(repo@),
{
    scan::same_text(repo, "bjorn3/cargo-bisect-rustc-bot") || scan::same_text(
        repo,
        "bjorn3/cargo-bisect-rustc-bot-jobs",
    )
}

/// What a delivery of kind `issue_comment` from the allowed repository
/// `repo` amounts to, given the fields of its payload.
pub fn comment_created(
    repo: String,
    action: Option<String>,
    issue_number: Option<u64>,
    comment_id: Option<u64>,
    body: Option<String>,
    sender: Option<String>,
) -> (r: Delivery)
    ensures
        r@ == comment_outcome(
            repo@,
            option_view(action),
            issue_number,
            comment_id,
            option_view(body),
            option_view(sender),
        ),
{
    match (action, issue_number, comment_id, body, sender) {
        (Some(action), Some(issue_number), Some(comment_id), Some(body), Some(_)) => {
            if scan::same_text(action.as_str(), "created") {
                Delivery::Request(
                    InboundEvent {
                        source: Source::GithubComment,
                        destination: ReplyTo::IssueComment { repo, issue_number },
                        correlation_id: decimal::decimal_string(comment_id),
                        raw_text: Some(body),
                    },
                )
            } else {
                Delivery::Discarded(Discard::OtherAction)
            }
        },
        _ => Delivery::Discarded(Discard::MissingField),
    }
}

/// What a delivery of kind `check_run` amounts to, given the fields of its
/// payload.
pub fn check_run_completed(
    action: Option<String>,
    id: Option<u64>,
    head_sha: Option<String>,
    html_url: Option<String>,
) -> (r: Delivery)
    ensures
        r@ == check_run_outcome(option_view(action), id, option_view(head_sha), option_view(html_url)),
{
    match (action, id, head_sha, html_url) {
        (Some(action), Some(id), Some(head_sha), Some(html_url)) => {
            if scan::same_text(action.as_str(), "completed") {
                Delivery::Completed(CheckRun { id, head_sha, html_url })
            } else {
                Delivery::Discarded(Discard::OtherAction)
            }
        },
        _ => Delivery::Discarded(Discard::MissingField),
    }
}

/// What a webhook delivery amounts to: `kind` is the kind of event that the
/// delivery announces, `body` its payload as text.
pub fn normalize_webhook(kind: &str, body: &str) -> (r: Delivery)
    ensures
        r@ == webhook_outcome(kind@, body@),
{
    let payload = match json::parse(body) {
        Ok(payload) => payload,
        Err(_) => {
            return Delivery::Discarded(Discard::NotJson);
        },
    };
    let repo = match json::text_in(&payload, "repository", "full_name") {
        Some(repo) => repo,
        None => {
            return Delivery::Discarded(Discard::NoRepository);
        },
    };
    if !allowed(repo.as_str()) {
        Delivery::Discarded(Discard::WrongRepository)
    } else if scan::same_text(kind, "issue_comment") {
        comment_created(
            repo,
            json::text_of(&payload, "action"),
            json::number_in(&payload, "issue", "number"),
            json::number_in(&payload, "comment", "id"),
            json::text_in(&payload, "comment", "body"),
            json::text_in(&payload, "sender", "login"),
        )
    } else if scan::same_text(kind, "check_run") {
        check_run_completed(
            json::text_of(&payload, "action"),
            json::number_in(&payload, "check_run", "id"),
            json::text_in(&payload, "check_run", "head_sha"),
            json::text_in(&payload, "check_run", "html_url"),
        )
    } else {
        Delivery::Discarded(Discard::UnknownEvent)
    }
}

/// The event that the completed check run `run` amounts to, given the
/// message of its commit.
pub fn completion(run: &CheckRun, message: &str) -> (r: Result<InboundEvent, DecodeError>)
    ensures
        event_view(r) == completion_event(run@, message@),
{
    match ReplyTo::from_commit_message(message) {
        Ok(destination) => Ok(
            InboundEvent {
                source: Source::GithubCheckRun,
                destination,
                correlation_id: decimal::decimal_string(run.id),
                raw_text: None,
            },
        ),
        Err(e) => Err(e),
    }
}

/// The message of the commit that the reply `body` of the lookup describes,
/// where `body` is a JSON object with a string under `message`.
pub fn commit_message(body: &str) -> (r: Option<String>)
    ensures
        option_view(r) == (match json::json_document(body@) {
            Some(commit) => json::member_text(commit, "message"@),
            None => None,
        }),
{
    match json::parse(body) {
        Ok(commit) => json::text_of(&commit, "message"),
        Err(_) => None,
    }
}

} // verus!
