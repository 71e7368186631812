use bisect_bot::command::Command;
use bisect_bot::destination::ReplyTo;
use bisect_bot::outbound::{reference_retry, store_address};
use bisect_bot::job::{
    advance, branch_name, commit_message_text, object_sha, push_shell_quoted, start, stored_sha,
    workflow_text,
    EntryMode, EntryType, Job, Progress, StoreRequest, TreeBuild, TreeEntry, TreeError, MANIFEST,
    WORKFLOW_HEAD, WORKFLOW_TAIL,
};

fn job() -> Job {
    Job {
        destination: ReplyTo::IssueComment {
            repo: "bjorn3/cargo-bisect-rustc-bot".to_string(),
            issue_number: 3,
        },
        correlation_id: "690000001".to_string(),
        command: Command::Bisect {
            start: Some("2021-01-01".to_string()),
            end: "2021-02-01".to_string(),
            code: "fn main(){}".to_string(),
        },
    }
}

fn quoted(s: &str) -> String {
    let chars: Vec<char> = s.chars().collect();
    let mut out = String::new();
    push_shell_quoted(&mut out, &chars);
    out
}

fn entry(path: &str, mode: EntryMode, kind: EntryType, sha: &str) -> TreeEntry {
    TreeEntry { path: path.to_string(), mode, kind, sha: sha.to_string() }
}

fn call(progress: Progress) -> (TreeBuild, StoreRequest) {
    match progress {
        Progress::Call(build, request) => (build, request),
        other => panic!("expected a request, got {:?}", other),
    }
}

#[test]
fn shell_words() {
    assert_eq!(quoted(""), "''");
    assert_eq!(quoted("--end=2021-02-01"), "'--end=2021-02-01'");
    assert_eq!(quoted("it's"), "'it'\\''s'");
    assert_eq!(quoted("'"), "''\\'''");
    assert_eq!(quoted("$(rm -rf /) `x` \"y\" \\"), "'$(rm -rf /) `x` \"y\" \\'");
}

#[test]
fn workflow_with_both_ends() {
    let text = workflow_text(&Some("2021-01-01".to_string()), "2021-02-01");
    assert_eq!(
        text,
        format!("{}'--start=2021-01-01' '--end=2021-02-01'{}", WORKFLOW_HEAD, WORKFLOW_TAIL)
    );
    assert!(text.contains(
        "      run: cargo bisect-rustc '--start=2021-01-01' '--end=2021-02-01' --access=github | grep -v \"for x86_64-unknown-linux-gnu\" || true\n"
    ));
    assert!(text.starts_with("\nname: Bisect\n\non:\n  - push\n"));
}

#[test]
fn workflow_without_start() {
    assert_eq!(
        workflow_text(&None, "a'b"),
        format!("{}'--end=a'\\''b'{}", WORKFLOW_HEAD, WORKFLOW_TAIL)
    );
}

#[test]
fn commit_message_and_branch() {
    assert_eq!(
        commit_message_text("690000001", &ReplyTo::DirectMessage { user_id: 8 }),
        "Bisect job for comment id 690000001\n\nX-Bisectbot-Reply-To: user 8"
    );
    assert_eq!(branch_name("zulip42"), "refs/heads/jobzulip42");
}

#[test]
fn commit_message_decodes_to_the_destination() {
    let destinations = [
        ReplyTo::IssueComment { repo: "a/b".to_string(), issue_number: 1 },
        ReplyTo::ChannelMessage { channel_id: 2, topic: "t | u".to_string() },
        ReplyTo::ChannelMessage { channel_id: 2, topic: "".to_string() },
        ReplyTo::ChannelMessage { channel_id: 2, topic: " ends in blanks \t".to_string() },
        ReplyTo::IssueComment { repo: "\ta/b\t".to_string(), issue_number: 1 },
        ReplyTo::DirectMessage { user_id: 3 },
    ];
    for d in destinations {
        let message = commit_message_text("zulip17", &d);
        assert_eq!(ReplyTo::from_commit_message(&message), Ok(d.clone()));
        let job = Job { destination: d.clone(), ..job() };
        let mut progress = start(job);
        for n in 0..6 {
            let (build, _) = call(progress);
            progress = advance(build, Ok(format!("sha{}", n)));
        }
        match call(progress).1 {
            StoreRequest::CreateCommit { message, .. } => {
                assert_eq!(ReplyTo::from_commit_message(&message), Ok(d))
            }
            other => panic!("expected the commit, got {:?}", other),
        }
    }
}

#[test]
fn the_plan_of_a_build() {
    let (build, request) = call(start(job()));
    assert_eq!(request, StoreRequest::CreateBlob { content: "fn main(){}".to_string() });

    let (build, request) = call(advance(build, Ok("s0".to_string())));
    assert_eq!(
        request,
        StoreRequest::CreateBlob {
            content: workflow_text(&Some("2021-01-01".to_string()), "2021-02-01")
        }
    );

    let (build, request) = call(advance(build, Ok("s1".to_string())));
    assert_eq!(request, StoreRequest::CreateBlob { content: MANIFEST.to_string() });

    let (build, request) = call(advance(build, Ok("s2".to_string())));
    assert_eq!(
        request,
        StoreRequest::CreateTree {
            entries: vec![entry("lib.rs", EntryMode::File, EntryType::Blob, "s0")]
        }
    );

    let (build, request) = call(advance(build, Ok("t0".to_string())));
    assert_eq!(
        request,
        StoreRequest::CreateTree {
            entries: vec![entry("workflows/bisect.yaml", EntryMode::File, EntryType::Blob, "s1")]
        }
    );

    let (build, request) = call(advance(build, Ok("t1".to_string())));
    assert_eq!(
        request,
        StoreRequest::CreateTree {
            entries: vec![
                entry("src", EntryMode::Directory, EntryType::Tree, "t0"),
                entry(".github", EntryMode::Directory, EntryType::Tree, "t1"),
                entry("Cargo.toml", EntryMode::File, EntryType::Blob, "s2"),
            ]
        }
    );

    let (build, request) = call(advance(build, Ok("t2".to_string())));
    assert_eq!(
        request,
        StoreRequest::CreateCommit {
            message: "Bisect job for comment id 690000001\n\nX-Bisectbot-Reply-To: issue bjorn3/cargo-bisect-rustc-bot#3".to_string(),
            tree: "t2".to_string(),
            parents: vec![],
        }
    );

    let (build, request) = call(advance(build, Ok("c0".to_string())));
    assert_eq!(
        request,
        StoreRequest::UpdateRef {
            name: "refs/heads/job690000001".to_string(),
            sha: "c0".to_string(),
            force: true,
        }
    );

    assert_eq!(advance(build, Ok("ignored".to_string())), Progress::Done);
}

#[test]
fn a_failure_ends_the_build() {
    let (build, _) = call(start(job()));
    let (build, _) = call(advance(build, Ok("s0".to_string())));
    assert_eq!(
        advance(build, Err("502 Bad Gateway".to_string())),
        Progress::Failed(TreeError { step: 1, cause: "502 Bad Gateway".to_string() })
    );
    let (build, _) = call(start(job()));
    assert_eq!(
        advance(build, Err("timeout".to_string())),
        Progress::Failed(TreeError { step: 0, cause: "timeout".to_string() })
    );
}

#[test]
fn a_repeated_job_is_built_anew() {
    let (first, first_request) = call(start(job()));
    let (second, second_request) = call(start(job()));
    assert_eq!(first_request, second_request);
    assert_eq!(first, second);
    assert_eq!(first.next_request(), Some(first_request));
}

#[test]
fn what_the_store_calls_modes_and_types() {
    assert_eq!(EntryMode::File.code(), "100644");
    assert_eq!(EntryMode::Directory.code(), "040000");
    assert_eq!(EntryType::Blob.name(), "blob");
    assert_eq!(EntryType::Tree.name(), "tree");
}

#[test]
fn where_requests_are_posted() {
    let api = "https://api.github.com/repos/bjorn3/cargo-bisect-rustc-bot-jobs/git/";
    assert_eq!(
        store_address(&StoreRequest::CreateBlob { content: "x".to_string() }),
        format!("{}blobs", api)
    );
    assert_eq!(store_address(&StoreRequest::CreateTree { entries: vec![] }), format!("{}trees", api));
    assert_eq!(
        store_address(&StoreRequest::CreateCommit {
            message: "m".to_string(),
            tree: "t".to_string(),
            parents: vec![]
        }),
        format!("{}commits", api)
    );
    assert_eq!(
        store_address(&StoreRequest::UpdateRef {
            name: "refs/heads/job1".to_string(),
            sha: "c".to_string(),
            force: true
        }),
        format!("{}refs", api)
    );
}

#[test]
fn only_a_refused_reference_is_tried_again() {
    let api = "https://api.github.com/repos/bjorn3/cargo-bisect-rustc-bot-jobs/git/";
    assert_eq!(
        reference_retry(&StoreRequest::UpdateRef {
            name: "refs/heads/job1".to_string(),
            sha: "c".to_string(),
            force: true
        }),
        Some(format!("{}refs/heads/job1", api))
    );
    assert_eq!(reference_retry(&StoreRequest::CreateBlob { content: "x".to_string() }), None);
    assert_eq!(reference_retry(&StoreRequest::CreateTree { entries: vec![] }), None);
    assert_eq!(
        reference_retry(&StoreRequest::CreateCommit {
            message: "m".to_string(),
            tree: "t".to_string(),
            parents: vec![]
        }),
        None
    );
}

#[test]
fn what_an_answer_of_the_store_stands_for() {
    let blob = StoreRequest::CreateBlob { content: "x".to_string() };
    let reference = StoreRequest::UpdateRef {
        name: "refs/heads/job1".to_string(),
        sha: "c0".to_string(),
        force: true,
    };
    assert_eq!(stored_sha(&blob, "{\"sha\": \"s0\"}"), Some("s0".to_string()));
    assert_eq!(stored_sha(&blob, "{\"ref\": \"refs/heads/job1\"}"), None);
    assert_eq!(
        stored_sha(&reference, "{\"ref\": \"refs/heads/job1\", \"object\": {\"sha\": \"c0\"}}"),
        Some("c0".to_string())
    );
    assert_eq!(stored_sha(&reference, ""), Some("c0".to_string()));
}

#[test]
fn reads_the_identifier_of_an_object() {
    assert_eq!(
        object_sha("{\"sha\": \"3a0f86fb8db8eea7ccbb9a95f325ddbedfb25e15\", \"url\": \"u\"}"),
        Some("3a0f86fb8db8eea7ccbb9a95f325ddbedfb25e15".to_string())
    );
    assert_eq!(object_sha("{\"sha\": 5}"), None);
    assert_eq!(object_sha("{\"message\": \"Not Found\"}"), None);
    assert_eq!(object_sha("[\"sha\"]"), None);
    assert_eq!(object_sha("not json"), None);
    assert_eq!(object_sha("{\"sha\": \"a\"} trailing"), None);
}
