//! What to do about an event: start a job and acknowledge it, report a
//! result, or nothing.

use crate::chat;
use crate::command;
use crate::command::Command;
use crate::command::ParseError;
use crate::command::Rejection;
use crate::destination;
use crate::destination::Destination;
use crate::destination::ReplyTo;
use crate::event;
use crate::event::Event;
use crate::event::InboundEvent;
use crate::job;
use crate::job::Job;
use crate::job::JobView;
use crate::job::Progress;
use vstd::prelude::*;

verus! {

/// What the requester is told once a job is started.
pub const ACKNOWLEDGEMENT: &'static str = "started bisection";

/// What the report of a result begins with.
pub const RESULT_PREFIX: &'static str = "bisect result: ";

/// A message to deliver.
#[derive(Debug, Clone, PartialEq, Eq)]
pub struct Reply {
    pub to: ReplyTo,
    pub text: String,
}

/// The mathematical value of a `Reply`.
pub struct Message {
    pub to: Destination,
    pub text: Seq<char>,
}

impl View for Reply {
    type V = Message;

    open spec fn view(&self) -> Message {
        Message { to: self.to@, text: self.text@ }
    }
}

/// What is done about an event.
#[derive(Debug, Clone, PartialEq, Eq)]
pub enum Decision {
    /// Build and push the job. Whether the acknowledgement is then sent is
    /// for `acknowledge` to say, once the build has ended.
    Build { job: Job, acknowledgement: Reply },
    /// A job is done: report its result to `to`.
    Report { to: ReplyTo },
    /// The text of the event is no command.
    Nothing,
    /// The text invokes the bot but is no command. Nobody is told.
    Dropped(ParseError),
}

/// The mathematical value of a `Decision`.
pub enum Verdict {
    Build { job: JobView, acknowledgement: Message },
    Report { to: Destination },
    Nothing,
    Dropped(Rejection),
}

impl View for Decision {
    type V = Verdict;

    open spec fn view(&self) -> Verdict {
        match self {
            Decision::Build { job, acknowledgement } => Verdict::Build {
                job: job@,
                acknowledgement: acknowledgement@,
            },
            Decision::Report { to } => Verdict::Report { to: to@ },
            Decision::Nothing => Verdict::Nothing,
            Decision::Dropped(e) => Verdict::Dropped(e@),
        }
    }
}

/// What is done about `event`. An event without text reports a result to
/// its destination. The text of any other event is parsed: a command
/// becomes a job for the event's destination under the event's correlation
/// id, acknowledged to that destination; a text that does not invoke the
/// bot leads to nothing; a text that invokes it wrongly is dropped.
pub open spec fn verdict(event: Event) -> Verdict {
    match event.raw_text {
        None => Verdict::Report { to: event.destination },
        Some(text) => match command::parse(text) {
            Ok(Some(directive)) => Verdict::Build {
                job: JobView {
                    destination: event.destination,
                    correlation_id: event.correlation_id,
                    command: directive,
                },
                acknowledgement: Message { to: event.destination, text: ACKNOWLEDGEMENT@ },
            },
            Ok(None) => Verdict::Nothing,
            Err(rejection) => Verdict::Dropped(rejection),
        },
    }
}

/// A destination in a repository that may ask survives its text form.
pub proof fn lemma_allowed_round_trips(repo: Seq<char>, issue_number: u64)
    requires
        event::is_allowed(repo),
    ensures
        destination::round_trips(Destination::IssueComment { repo, issue_number }),
{
    reveal_strlit("bjorn3/cargo-bisect-rustc-bot");
    reveal_strlit("bjorn3/cargo-bisect-rustc-bot-jobs");
    assert forall|k: int| 0 <= k < repo.len() implies repo[k] != ' ' && repo[k] != '#' && repo[k]
        != '\n' by {}
}

/// An event that starts a job is recovered from the job's commit: the
/// message of the one commit of the job decodes to the destination of the
/// event, where that destination survives its text form and the
/// correlation id holds no line feed.
pub proof fn lemma_build_commit_decodes(event: Event, shas: Seq<Seq<char>>)
    requires
        verdict(event) is Build,
        destination::round_trips(event.destination),
        !event.correlation_id.contains('\n'),
        shas.len() == 6,
    ensures
        ({
            let job = verdict(event)->Build_job;
            &&& job.destination == event.destination
            &&& job.correlation_id == event.correlation_id
            &&& verdict(event)->Build_acknowledgement.to == event.destination
            &&& job::request_at(job, shas) is Some
            &&& job::request_at(job, shas)->0 is CreateCommit
            &&& destination::decode(job::request_at(job, shas)->0->CreateCommit_message) == Ok::<
                Destination,
                destination::DecodeError,
            >(event.destination)
        }),
{
    let job = verdict(event)->Build_job;
    job::lemma_one_commit(job, shas);
    job::lemma_commit_message_decodes(job.correlation_id, job.destination);
}

/// End to end: a delivery that is a request for a command leads to a job
/// for the issue that the comment is on, in a repository that may ask, and
/// the one commit of that job carries that issue as its destination.
pub proof fn lemma_end_to_end(kind: Seq<char>, payload: serde_json::Value, shas: Seq<Seq<char>>)
    requires
        event::payload_outcome(kind, payload) is Request,
        verdict(event::payload_outcome(kind, payload)->Request_0) is Build,
        shas.len() == 6,
    ensures
        ({
            let request = event::payload_outcome(kind, payload)->Request_0;
            let job = verdict(request)->Build_job;
            &&& request.destination is IssueComment
            &&& event::is_allowed(request.destination->repo)
            &&& job.destination == request.destination
            &&& job::request_at(job, shas) is Some
            &&& job::request_at(job, shas)->0 is CreateCommit
            &&& destination::decode(job::request_at(job, shas)->0->CreateCommit_message) == Ok::<
                Destination,
                destination::DecodeError,
            >(request.destination)
        }),
{
    let request = event::payload_outcome(kind, payload)->Request_0;
    let comment_id = crate::json::nested_number(payload, "comment"@, "id"@)->0;
    assert(request.correlation_id == crate::decimal::decimal(comment_id as nat));
    crate::decimal::lemma_decimal_lacks(comment_id as nat, '\n');
    lemma_allowed_round_trips(request.destination->repo, request.destination->issue_number);
    lemma_build_commit_decodes(request, shas);
}

/// The same for the chat: a message that holds a command leads to a job
/// whose one commit carries the place of the message as its destination,
/// where that destination survives its text form.
pub proof fn lemma_chat_end_to_end(
    id: Option<u64>,
    content: Option<Seq<char>>,
    sender_id: Option<u64>,
    channel_id: Option<u64>,
    topic: Option<Seq<char>>,
    shas: Seq<Seq<char>>,
)
    requires
        chat::message_event(id, content, sender_id, channel_id, topic) is Some,
        verdict(chat::message_event(id, content, sender_id, channel_id, topic)->0) is Build,
        destination::round_trips(
            chat::message_event(id, content, sender_id, channel_id, topic)->0.destination,
        ),
        shas.len() == 6,
    ensures
        ({
            let message = chat::message_event(id, content, sender_id, channel_id, topic)->0;
            let job = verdict(message)->Build_job;
            &&& job::request_at(job, shas) is Some
            &&& job::request_at(job, shas)->0 is CreateCommit
            &&& destination::decode(job::request_at(job, shas)->0->CreateCommit_message) == Ok::<
                Destination,
                destination::DecodeError,
            >(message.destination)
        }),
{
    let message = chat::message_event(id, content, sender_id, channel_id, topic)->0;
    reveal_strlit("zulip");
    crate::decimal::lemma_decimal_lacks(id->0 as nat, '\n');
    crate::text::lemma_concat_lacks(
        chat::CHAT_ID_PREFIX@,
        crate::decimal::decimal(id->0 as nat),
        '\n',
    );
    lemma_build_commit_decodes(message, shas);
}

/// Decides what is done about `event`.
pub fn dispatch(event: InboundEvent) -> (r: Decision)
    ensures
        r@ == verdict(event@),
{
    let InboundEvent { source: _, destination, correlation_id, raw_text } = event;
    match raw_text {
        None => Decision::Report { to: destination },
        Some(text) => match Command::parse_comment(text.as_str()) {
            Ok(Some(command)) => {
                let to = destination.clone();
                Decision::Build {
                    job: Job { destination, correlation_id, command },
                    acknowledgement: Reply { to, text: String::from_str(ACKNOWLEDGEMENT) },
                }
            },
            Ok(None) => Decision::Nothing,
            Err(e) => Decision::Dropped(e),
        },
    }
}

/// The acknowledgement to send once building the job has come to
/// `progress`: the one that was decided with the job, and only when the
/// build is done. While a request is still to be sent, and after a failure,
/// nobody is told.
pub fn acknowledge(progress: &Progress, acknowledgement: Reply) -> (r: Option<Reply>)
    ensures
        r is Some <==> progress is Done,
        r is Some ==> r->0@ == acknowledgement@,
{
    match progress {
        Progress::Done => Some(acknowledgement),
        _ => None,
    }
}

/// The report of the result at `link` to the destination `to`.
pub fn result_reply(to: ReplyTo, link: &str) -> (r: Reply)
    ensures
        r@ == (Message { to: to@, text: RESULT_PREFIX@ + link@ }),
{
    let mut text = String::from_str(RESULT_PREFIX);
    text.append(link);
    Reply { to, text }
}

} // verus!
