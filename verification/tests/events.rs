use bisect_bot::command::{Command, ParseError};
use bisect_bot::destination::{DecodeError, ReplyTo};
use bisect_bot::dispatch::{acknowledge, dispatch, result_reply, Decision, Reply};
use bisect_bot::event::{
    allowed, answer, check_run_completed, comment_created, commit_message, completion, normalize_webhook,
    CheckRun, Delivery, Discard, InboundEvent, Source,
};
use bisect_bot::job::{advance, start, Job, Progress, StoreRequest, TreeError};

const COMMENT: &str = "{\"action\": \"created\", \"repository\": {\"full_name\": \"bjorn3/cargo-bisect-rustc-bot\"}, \"issue\": {\"number\": 12}, \"comment\": {\"id\": 690000001, \"body\": \"bisect-bot bisect end=nightly-2021-05-01\\n```rust\\nfn main(){}\\n```\"}, \"sender\": {\"login\": \"someone\"}}";

const CHECK_RUN: &str = "{\"action\": \"completed\", \"check_run\": {\"id\": 99, \"head_sha\": \"abc123\", \"html_url\": \"https://github.com/runs/99\"}, \"repository\": {\"full_name\": \"bjorn3/cargo-bisect-rustc-bot-jobs\"}}";

fn some(s: &str) -> Option<String> {
    Some(s.to_string())
}

fn on_issue(repo: &str, issue_number: u64) -> ReplyTo {
    ReplyTo::IssueComment { repo: repo.to_string(), issue_number }
}

fn request(text: &str) -> InboundEvent {
    InboundEvent {
        source: Source::GithubComment,
        destination: on_issue("a/b", 1),
        correlation_id: "5".to_string(),
        raw_text: some(text),
    }
}

#[test]
fn allow_list() {
    assert!(allowed("bjorn3/cargo-bisect-rustc-bot"));
    assert!(allowed("bjorn3/cargo-bisect-rustc-bot-jobs"));
    assert!(!allowed("bjorn3/cargo-bisect-rustc-bot-job"));
    assert!(!allowed("rust-lang/rust"));
    assert!(!allowed(""));
}

#[test]
fn comment_becomes_a_request() {
    assert_eq!(
        normalize_webhook("issue_comment", COMMENT),
        Delivery::Request(InboundEvent {
            source: Source::GithubComment,
            destination: on_issue("bjorn3/cargo-bisect-rustc-bot", 12),
            correlation_id: "690000001".to_string(),
            raw_text: some("bisect-bot bisect end=nightly-2021-05-01\n```rust\nfn main(){}\n```"),
        })
    );
}

#[test]
fn check_run_becomes_a_lookup() {
    assert_eq!(
        normalize_webhook("check_run", CHECK_RUN),
        Delivery::Completed(CheckRun {
            id: 99,
            head_sha: "abc123".to_string(),
            html_url: "https://github.com/runs/99".to_string(),
        })
    );
}

#[test]
fn deliveries_that_are_discarded() {
    assert_eq!(normalize_webhook("issue_comment", "{"), Delivery::Discarded(Discard::NotJson));
    assert_eq!(
        normalize_webhook("issue_comment", "{\"action\": \"created\"}"),
        Delivery::Discarded(Discard::NoRepository)
    );
    assert_eq!(
        normalize_webhook("issue_comment", "{\"repository\": \"bjorn3/cargo-bisect-rustc-bot\"}"),
        Delivery::Discarded(Discard::NoRepository)
    );
    assert_eq!(
        normalize_webhook("issue_comment", "[1, 2]"),
        Delivery::Discarded(Discard::NoRepository)
    );
    assert_eq!(
        normalize_webhook(
            "issue_comment",
            &COMMENT.replace("bjorn3/cargo-bisect-rustc-bot", "rust-lang/rust")
        ),
        Delivery::Discarded(Discard::WrongRepository)
    );
    assert_eq!(normalize_webhook("push", COMMENT), Delivery::Discarded(Discard::UnknownEvent));
    assert_eq!(
        normalize_webhook("issue_comment", &COMMENT.replace("created", "edited")),
        Delivery::Discarded(Discard::OtherAction)
    );
    assert_eq!(
        normalize_webhook("issue_comment", &COMMENT.replace("\"number\": 12", "\"number\": -12")),
        Delivery::Discarded(Discard::MissingField)
    );
    assert_eq!(
        normalize_webhook("issue_comment", &COMMENT.replace("\"login\"", "\"name\"")),
        Delivery::Discarded(Discard::MissingField)
    );
    assert_eq!(
        normalize_webhook("issue_comment", CHECK_RUN),
        Delivery::Discarded(Discard::MissingField)
    );
    assert_eq!(
        normalize_webhook("check_run", &CHECK_RUN.replace("completed", "created")),
        Delivery::Discarded(Discard::OtherAction)
    );
    assert_eq!(
        normalize_webhook("check_run", &CHECK_RUN.replace("head_sha", "sha")),
        Delivery::Discarded(Discard::MissingField)
    );
}

#[test]
fn what_a_discarded_delivery_is_answered() {
    assert_eq!(answer(Discard::NotJson), "not json");
    assert_eq!(answer(Discard::NoRepository), "missing repo");
    assert_eq!(answer(Discard::WrongRepository), "wrong repo");
    assert_eq!(answer(Discard::UnknownEvent), "unknown event");
    assert_eq!(answer(Discard::MissingField), "processed");
    assert_eq!(answer(Discard::OtherAction), "processed");
}

#[test]
fn comment_fields() {
    assert_eq!(
        comment_created("a/b".to_string(), some("created"), Some(1), Some(2), some("hi"), some("me")),
        Delivery::Request(InboundEvent {
            source: Source::GithubComment,
            destination: on_issue("a/b", 1),
            correlation_id: "2".to_string(),
            raw_text: some("hi"),
        })
    );
    assert_eq!(
        comment_created("a/b".to_string(), some("deleted"), Some(1), Some(2), some("hi"), some("me")),
        Delivery::Discarded(Discard::OtherAction)
    );
    assert_eq!(
        comment_created("a/b".to_string(), None, Some(1), Some(2), some("hi"), some("me")),
        Delivery::Discarded(Discard::MissingField)
    );
    assert_eq!(
        comment_created("a/b".to_string(), some("deleted"), Some(1), Some(2), None, some("me")),
        Delivery::Discarded(Discard::MissingField)
    );
}

#[test]
fn check_run_fields() {
    assert_eq!(
        check_run_completed(some("completed"), Some(4), some("abc"), some("https://x")),
        Delivery::Completed(CheckRun {
            id: 4,
            head_sha: "abc".to_string(),
            html_url: "https://x".to_string()
        })
    );
    assert_eq!(
        check_run_completed(some("completed"), None, some("abc"), some("https://x")),
        Delivery::Discarded(Discard::MissingField)
    );
    assert_eq!(
        check_run_completed(some("rerequested"), Some(4), some("abc"), some("https://x")),
        Delivery::Discarded(Discard::OtherAction)
    );
}

#[test]
fn completion_resolves_the_destination() {
    let run = CheckRun { id: 99, head_sha: "abc".to_string(), html_url: "https://x".to_string() };
    let body = "{\"sha\": \"abc\", \"message\": \"Bisect job for comment id 5\\n\\nX-Bisectbot-Reply-To: channel 7 | help\"}";
    let message = commit_message(body).unwrap();
    assert_eq!(message, "Bisect job for comment id 5\n\nX-Bisectbot-Reply-To: channel 7 | help");
    assert_eq!(
        completion(&run, &message),
        Ok(InboundEvent {
            source: Source::GithubCheckRun,
            destination: ReplyTo::ChannelMessage { channel_id: 7, topic: "help".to_string() },
            correlation_id: "99".to_string(),
            raw_text: None,
        })
    );
    assert_eq!(completion(&run, "Initial commit"), Err(DecodeError::NoHeaderFound));
    assert_eq!(
        completion(&run, "x\nX-Bisectbot-Reply-To: issue a/b"),
        Err(DecodeError::MalformedPayload)
    );
    assert_eq!(commit_message("{\"message\": 3}"), None);
    assert_eq!(commit_message("{}"), None);
    assert_eq!(commit_message("oops"), None);
}

#[test]
fn dispatch_starts_a_job() {
    assert_eq!(
        dispatch(request("bisect-bot bisect start=a end=b\n```rust\nfn main(){}\n```")),
        Decision::Build {
            job: Job {
                destination: on_issue("a/b", 1),
                correlation_id: "5".to_string(),
                command: Command::Bisect {
                    start: some("a"),
                    end: "b".to_string(),
                    code: "fn main(){}".to_string(),
                },
            },
            acknowledgement: Reply { to: on_issue("a/b", 1), text: "started bisection".to_string() },
        }
    );
}

#[test]
fn dispatch_ignores_other_text() {
    assert_eq!(dispatch(request("thanks!")), Decision::Nothing);
}

#[test]
fn dispatch_drops_a_wrong_command() {
    assert_eq!(
        dispatch(request("bisect-bot bisect start=a")),
        Decision::Dropped(ParseError::MissingEnd)
    );
}

#[test]
fn dispatch_reports_a_completion() {
    let event = InboundEvent {
        source: Source::GithubCheckRun,
        destination: ReplyTo::DirectMessage { user_id: 4 },
        correlation_id: "99".to_string(),
        raw_text: None,
    };
    assert_eq!(dispatch(event), Decision::Report { to: ReplyTo::DirectMessage { user_id: 4 } });
    assert_eq!(
        result_reply(ReplyTo::DirectMessage { user_id: 4 }, "https://github.com/runs/99"),
        Reply {
            to: ReplyTo::DirectMessage { user_id: 4 },
            text: "bisect result: https://github.com/runs/99".to_string(),
        }
    );
}

#[test]
fn the_acknowledgement_follows_the_build() {
    let (job, acknowledgement) =
        match dispatch(request("bisect-bot bisect end=b\n```rust\nfn main(){}\n```")) {
            Decision::Build { job, acknowledgement } => (job, acknowledgement),
            other => panic!("expected a job, got {:?}", other),
        };
    let mut progress = start(job);
    let mut answers = 0;
    while let Progress::Call(build, _) = progress {
        assert_eq!(
            acknowledge(
                &Progress::Call(build.clone(), build.next_request().unwrap()),
                acknowledgement.clone()
            ),
            None
        );
        answers += 1;
        progress = advance(build, Ok(format!("sha{}", answers)));
    }
    assert_eq!(answers, 8);
    assert_eq!(progress, Progress::Done);
    assert_eq!(
        acknowledge(&progress, acknowledgement),
        Some(Reply { to: on_issue("a/b", 1), text: "started bisection".to_string() })
    );
}

#[test]
fn a_failed_build_is_not_acknowledged() {
    let (job, acknowledgement) =
        match dispatch(request("bisect-bot bisect end=b\n```rust\nfn main(){}\n```")) {
            Decision::Build { job, acknowledgement } => (job, acknowledgement),
            other => panic!("expected a job, got {:?}", other),
        };
    let build = match start(job) {
        Progress::Call(build, _) => build,
        other => panic!("expected a request, got {:?}", other),
    };
    let failed = advance(build, Err("403 Forbidden".to_string()));
    assert_eq!(
        failed,
        Progress::Failed(TreeError { step: 0, cause: "403 Forbidden".to_string() })
    );
    assert_eq!(acknowledge(&failed, acknowledgement), None);
}

#[test]
fn end_to_end() {
    let event = match normalize_webhook("issue_comment", COMMENT) {
        Delivery::Request(event) => event,
        other => panic!("expected a request, got {:?}", other),
    };
    let origin = event.destination.clone();
    let job = match dispatch(event) {
        Decision::Build { job, acknowledgement } => {
            assert_eq!(acknowledgement.to, origin);
            job
        }
        other => panic!("expected a job, got {:?}", other),
    };
    let mut progress = start(job);
    let mut commits = Vec::new();
    let mut requests = 0;
    loop {
        match progress {
            Progress::Call(build, request) => {
                requests += 1;
                if let StoreRequest::CreateCommit { message, parents, .. } = &request {
                    assert!(parents.is_empty());
                    commits.push(message.clone());
                }
                progress = advance(build, Ok(format!("sha{}", requests)));
            }
            Progress::Done => break,
            Progress::Failed(e) => panic!("the build failed: {:?}", e),
        }
    }
    assert_eq!(requests, 8);
    assert_eq!(commits.len(), 1);
    assert_eq!(
        ReplyTo::from_commit_message(&commits[0]),
        Ok(on_issue("bjorn3/cargo-bisect-rustc-bot", 12))
    );
    assert_eq!(ReplyTo::from_commit_message(&commits[0]), Ok(origin));
}
