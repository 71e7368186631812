//! The job that a command turns into: a small source tree, built object by
//! object in a content-addressed store and published as a branch. The
//! store is remote, so the builder is a plan: it says which request comes
//! next, given the identifiers that the store returned so far.

use crate::command::Command;
use crate::command::Directive;
use crate::destination;
use crate::destination::Destination;
use crate::destination::ReplyTo;
use crate::json;
use crate::scan;
use crate::scan::option_view;
use crate::text;
use vstd::prelude::*;

verus! {

/// The workflow description up to the flags of the bisection.
pub const WORKFLOW_HEAD: &'static str =
    "\nname: Bisect\n\non:\n  - push\n\njobs:\n  build:\n    runs-on: ubuntu-latest\n\n    steps:\n    - uses: actions/checkout@v2\n\n    # https://github.com/actions/cache/issues/133\n    - name: Fixup owner of ~/.cargo/\n      # Don't remove the trailing /. It is necessary to follow the symlink.\n      run: sudo chown -R $(whoami):$(id -ng) ~/.cargo/\n\n    - name: Cache cargo installed crates\n      uses: actions/cache@v1.1.2\n      with:\n        path: ~/.cargo/bin\n        key: cargo-installed-crates\n\n    - run: cargo install cargo-bisect-rustc || true\n\n    - name: Bisect\n      run: cargo bisect-rustc ";

/// The workflow description after the flags of the bisection.
pub const WORKFLOW_TAIL: &'static str =
    " --access=github | grep -v \"for x86_64-unknown-linux-gnu\" || true\n        ";

/// The manifest of every job.
pub const MANIFEST: &'static str =
    "[package]\nname = \"cargo-bisect-bot-job\"\nversion = \"0.0.0\"\nedition = \"2018\"\npublish = false\n\n[dependencies]\n";

/// What the first line of a job's commit message begins with.
pub const COMMIT_TITLE: &'static str = "Bisect job for comment id ";

/// What the name of a job's branch begins with.
pub const BRANCH_PREFIX: &'static str = "refs/heads/job";

/// The encoding in which the content of a blob is handed to the store.
pub const BLOB_ENCODING: &'static str = "utf-8";

/// One bisection to run and where to report it.
#[derive(Debug, Clone, PartialEq, Eq)]
pub struct Job {
    pub destination: ReplyTo,
    pub correlation_id: String,
    pub command: Command,
}

/// The mathematical value of a `Job`.
pub struct JobView {
    pub destination: Destination,
    pub correlation_id: Seq<char>,
    pub command: Directive,
}

impl View for Job {
    type V = JobView;

    open spec fn view(&self) -> JobView {
        JobView {
            destination: self.destination@,
            correlation_id: self.correlation_id@,
            command: self.command@,
        }
    }
}

/// Whether a tree entry is a file or a directory.
#[derive(Debug, Clone, Copy, PartialEq, Eq)]
pub enum EntryMode {
    File,
    Directory,
}

/// Whether a tree entry refers to a blob or to a tree.
#[derive(Debug, Clone, Copy, PartialEq, Eq)]
pub enum EntryType {
    Blob,
    Tree,
}

/// The mode by which the store knows a file or a directory.
pub open spec fn mode_text(mode: EntryMode) -> Seq<char> {
    match mode {
        EntryMode::File => "100644"@,
        EntryMode::Directory => "040000"@,
    }
}

/// The name by which the store knows a blob or a tree.
pub open spec fn kind_name(kind: EntryType) -> Seq<char> {
    match kind {
        EntryType::Blob => "blob"@,
        EntryType::Tree => "tree"@,
    }
}

impl EntryMode {
    /// The mode by which the store knows a file or a directory.
    pub fn code(self) -> (r: &'static str)
        ensures
            r@ == mode_text(self),
    {
        match self {
            EntryMode::File => "100644",
            EntryMode::Directory => "040000",
        }
    }
}

impl EntryType {
    /// The name by which the store knows a blob or a tree.
    pub fn name(self) -> (r: &'static str)
        ensures
            r@ == kind_name(self),
    {
        match self {
            EntryType::Blob => "blob",
            EntryType::Tree => "tree",
        }
    }
}

/// One entry of a tree.
#[derive(Debug, Clone, PartialEq, Eq)]
pub struct TreeEntry {
    pub path: String,
    pub mode: EntryMode,
    pub kind: EntryType,
    pub sha: String,
}

/// The mathematical value of a `TreeEntry`.
pub struct Entry {
    pub path: Seq<char>,
    pub mode: EntryMode,
    pub kind: EntryType,
    pub sha: Seq<char>,
}

impl View for TreeEntry {
    type V = Entry;

    open spec fn view(&self) -> Entry {
        Entry { path: self.path@, mode: self.mode, kind: self.kind, sha: self.sha@ }
    }
}

/// One request to the object store.
#[derive(Debug, Clone, PartialEq, Eq)]
pub enum StoreRequest {
    /// Store a blob with the text `content`.
    CreateBlob { content: String },
    /// Store a tree with the entries `entries`.
    CreateTree { entries: Vec<TreeEntry> },
    /// Store a commit of the tree `tree`.
    CreateCommit { message: String, tree: String, parents: Vec<String> },
    /// Make the reference `name` point at the commit `sha`.
    UpdateRef { name: String, sha: String, force: bool },
}

/// The mathematical value of a `StoreRequest`.
pub enum Request {
    CreateBlob { content: Seq<char> },
    CreateTree { entries: Seq<Entry> },
    CreateCommit { message: Seq<char>, tree: Seq<char>, parents: Seq<Seq<char>> },
    UpdateRef { name: Seq<char>, sha: Seq<char>, force: bool },
}

impl View for StoreRequest {
    type V = Request;

    open spec fn view(&self) -> Request {
        match self {
            StoreRequest::CreateBlob { content } => Request::CreateBlob { content: content@ },
            StoreRequest::CreateTree { entries } => Request::CreateTree {
                entries: Seq::new(entries@.len(), |i: int| entries@[i]@),
            },
            StoreRequest::CreateCommit { message, tree, parents } => Request::CreateCommit {
                message: message@,
                tree: tree@,
                parents: Seq::new(parents@.len(), |i: int| parents@[i]@),
            },
            StoreRequest::UpdateRef { name, sha, force } => Request::UpdateRef {
                name: name@,
                sha: sha@,
                force: *force,
            },
        }
    }
}

/// The view of an optional request.
pub open spec fn request_view(r: Option<StoreRequest>) -> Option<Request> {
    match r {
        Some(request) => Some(request@),
        None => None,
    }
}

/// A request of the store that failed, and at which step of the plan.
#[derive(Debug, Clone, PartialEq, Eq)]
pub struct TreeError {
    pub step: usize,
    pub cause: String,
}

/// What stands for `c` between single quotes in a shell word.
pub open spec fn quoted_char(c: char) -> Seq<char> {
    if c == '\'' {
        seq!['\'', '\\', '\'', '\'']
    } else {
        seq![c]
    }
}

/// What stands for `s` between single quotes in a shell word.
pub open spec fn quoted_chars(s: Seq<char>) -> Seq<char>
    decreases s.len(),
{
    if s.len() == 0 {
        seq![]
    } else {
        quoted_chars(s.drop_last()) + quoted_char(s.last())
    }
}

/// `s` as one word of a shell command: `s` between single quotes, where each
/// single quote of `s` closes the quotes, stands escaped, and opens them
/// again. A shell reads `s` back from it, whatever `s` holds.
pub open spec fn shell_quoted(s: Seq<char>) -> Seq<char> {
    seq!['\''] + quoted_chars(s) + seq!['\'']
}

/// What a shell reads from the word `word`: between single quotes every
/// character stands for itself up to the next single quote; outside them a
/// backslash makes the next character stand for itself. `quoted` says
/// whether the word begins between quotes.
pub open spec fn shell_read(word: Seq<char>, quoted: bool) -> Seq<char>
    decreases word.len(),
{
    if word.len() == 0 {
        seq![]
    } else if word[0] == '\'' {
        shell_read(word.drop_first(), !quoted)
    } else if !quoted && word[0] == '\\' && word.len() >= 2 {
        seq![word[1]] + shell_read(word.skip(2), false)
    } else {
        seq![word[0]] + shell_read(word.drop_first(), quoted)
    }
}

/// Whether every character of `word` stands between single quotes or
/// behind a backslash, and the last quote is closed, so that a shell takes
/// `word` as one word with nothing in it to expand. `quoted` says whether
/// the word begins between quotes.
pub open spec fn is_shell_word(word: Seq<char>, quoted: bool) -> bool
    decreases word.len(),
{
    if word.len() == 0 {
        !quoted
    } else if word[0] == '\'' {
        is_shell_word(word.drop_first(), !quoted)
    } else if quoted {
        is_shell_word(word.drop_first(), true)
    } else if word[0] == '\\' && word.len() >= 2 {
        is_shell_word(word.skip(2), false)
    } else {
        false
    }
}

/// The flags of the bisection: the start, if there is one, and the end,
/// each as one shell word.
pub open spec fn bisect_flags(start: Option<Seq<char>>, end: Seq<char>) -> Seq<char> {
    match start {
        Some(start) => shell_quoted("--start="@ + start) + seq![' '] + shell_quoted("--end="@ + end),
        None => shell_quoted("--end="@ + end),
    }
}

/// The workflow description that runs the bisection.
pub open spec fn workflow(start: Option<Seq<char>>, end: Seq<char>) -> Seq<char> {
    WORKFLOW_HEAD@ + bisect_flags(start, end) + WORKFLOW_TAIL@
}

/// The message of a job's commit: a title line, an empty line and the
/// header line of the destination.
pub open spec fn commit_message(correlation_id: Seq<char>, d: Destination) -> Seq<char> {
    COMMIT_TITLE@ + correlation_id + seq!['\n', '\n'] + destination::encode(d)
}

/// The reference of a job's branch.
pub open spec fn branch(correlation_id: Seq<char>) -> Seq<char> {
    BRANCH_PREFIX@ + correlation_id
}

/// The entry of a file at `path` whose content is the blob `sha`.
pub open spec fn file(path: Seq<char>, sha: Seq<char>) -> Entry {
    Entry { path, mode: EntryMode::File, kind: EntryType::Blob, sha }
}

/// The entry of a directory at `path` whose content is the tree `sha`.
pub open spec fn directory(path: Seq<char>, sha: Seq<char>) -> Entry {
    Entry { path, mode: EntryMode::Directory, kind: EntryType::Tree, sha }
}

/// The request that comes next in building `job`, once the store has
/// answered the requests before it with the identifiers `shas`, in order.
/// Three blobs come first: the program, the workflow description and the
/// manifest. Three trees follow: that of the sources, that of the workflow
/// and the root. Then comes the commit of the root, without a parent, and
/// last the branch, which is forced to the commit. After that there is no
/// request.
pub open spec fn request_at(job: JobView, shas: Seq<Seq<char>>) -> Option<Request> {
    let n = shas.len();
    match job.command {
        Directive::Bisect { start, end, code } => {
            if n == 0 {
                Some(Request::CreateBlob { content: code })
            } else if n == 1 {
                Some(Request::CreateBlob { content: workflow(start, end) })
            } else if n == 2 {
                Some(Request::CreateBlob { content: MANIFEST@ })
            } else if n == 3 {
                Some(Request::CreateTree { entries: seq![file("lib.rs"@, shas[0])] })
            } else if n == 4 {
                Some(Request::CreateTree { entries: seq![file("workflows/bisect.yaml"@, shas[1])] })
            } else if n == 5 {
                Some(
                    Request::CreateTree {
                        entries: seq![
                            directory("src"@, shas[3]),
                            directory(".github"@, shas[4]),
                            file("Cargo.toml"@, shas[2]),
                        ],
                    },
                )
            } else if n == 6 {
                Some(
                    Request::CreateCommit {
                        message: commit_message(job.correlation_id, job.destination),
                        tree: shas[5],
                        parents: seq![],
                    },
                )
            } else if n == 7 {
                Some(
                    Request::UpdateRef { name: branch(job.correlation_id), sha: shas[6], force: true },
                )
            } else {
                None
            }
        },
    }
}

/// The message of a job's commit carries the job's destination: decoding
/// it gives the destination back, for every destination that survives its
/// text form and every correlation id without a line feed.
pub proof fn lemma_commit_message_decodes(correlation_id: Seq<char>, d: Destination)
    requires
        destination::round_trips(d),
        !correlation_id.contains('\n'),
    ensures
        destination::decode(commit_message(correlation_id, d)) == Ok::<
            Destination,
            destination::DecodeError,
        >(d),
{
    reveal_strlit("Bisect job for comment id ");
    reveal_strlit("X-Bisectbot-Reply-To");
    let title = COMMIT_TITLE@ + correlation_id;
    let line = destination::encode(d);
    let empty = Seq::<char>::empty();
    let tail = empty + seq!['\n'] + line;
    assert(commit_message(correlation_id, d) == title + seq!['\n'] + tail);
    assert(!title.contains('\n')) by {
        assert forall|k: int| 0 <= k < title.len() implies title[k] != '\n' by {
            if k >= COMMIT_TITLE@.len() {
                assert(title[k] == correlation_id[k - COMMIT_TITLE@.len()]);
            }
        }
    }
    assert(!destination::is_header_line(text::strip_cr(title))) by {
        let first = text::strip_cr(title);
        assert(first[0] == 'B');
        assert(text::trim_start(first) == first);
        text::lemma_trim_end_prefix(first);
        let trimmed = text::trim(first);
        if destination::header_token().is_prefix_of(trimmed) {
            assert(trimmed[0] == destination::header_token()[0]);
            assert(trimmed[0] == first[0]);
        }
    }
    destination::lemma_decode_skips_line(title, tail);
    assert(!destination::is_header_line(text::strip_cr(empty)));
    destination::lemma_decode_skips_line(empty, line);
    destination::lemma_round_trip(d);
}

/// What stands for a text between quotes is what stands for its first
/// character and then for the rest.
proof fn lemma_quoted_chars_first(s: Seq<char>)
    requires
        s.len() > 0,
    ensures
        quoted_chars(s) == quoted_char(s[0]) + quoted_chars(s.drop_first()),
    decreases s.len(),
{
    if s.len() == 1 {
        assert(s.drop_last() == Seq::<char>::empty());
        assert(s.drop_first() == Seq::<char>::empty());
        assert(quoted_chars(s.drop_last()) == Seq::<char>::empty());
        assert(quoted_chars(s) == quoted_char(s[0]));
    } else {
        let middle = s.drop_first().drop_last();
        lemma_quoted_chars_first(s.drop_last());
        assert(s.drop_last().drop_first() == middle);
        assert(s.drop_last()[0] == s[0]);
        assert(s.drop_first().last() == s.last());
        assert(quoted_chars(s.drop_first()) == quoted_chars(middle) + quoted_char(s.last()));
        assert(quoted_chars(s) == quoted_char(s[0]) + quoted_chars(middle) + quoted_char(
            s.last(),
        ));
    }
}

/// Between quotes, a shell reads `s` from what stands for `s`, and goes on
/// between quotes with what follows.
proof fn lemma_shell_read_quoted(s: Seq<char>, rest: Seq<char>)
    ensures
        shell_read(quoted_chars(s) + rest, true) == s + shell_read(rest, true),
        is_shell_word(quoted_chars(s) + rest, true) == is_shell_word(rest, true),
    decreases s.len(),
{
    if s.len() == 0 {
        assert(quoted_chars(s) + rest == rest);
        assert(s + shell_read(rest, true) == shell_read(rest, true));
    } else {
        let tail = s.drop_first();
        let after = quoted_chars(tail) + rest;
        lemma_quoted_chars_first(s);
        lemma_shell_read_quoted(tail, rest);
        let word = quoted_chars(s) + rest;
        assert(word == quoted_char(s[0]) + after);
        if s[0] == '\'' {
            let w1 = word.drop_first();
            assert(w1 == seq!['\\', '\'', '\''] + after);
            assert(w1.skip(2) == seq!['\''] + after);
            assert(w1.skip(2).drop_first() == after);
            assert(shell_read(word, true) == shell_read(w1, false));
            assert(shell_read(w1, false) == seq!['\''] + shell_read(w1.skip(2), false));
            assert(shell_read(w1.skip(2), false) == shell_read(after, true));
            assert(is_shell_word(word, true) == is_shell_word(w1, false));
            assert(is_shell_word(w1, false) == is_shell_word(w1.skip(2), false));
            assert(is_shell_word(w1.skip(2), false) == is_shell_word(after, true));
            assert(seq!['\''] + (tail + shell_read(rest, true)) == s + shell_read(rest, true));
        } else {
            assert(word.drop_first() == after);
            assert(seq![s[0]] + (tail + shell_read(rest, true)) == s + shell_read(rest, true));
        }
    }
}

/// A shell takes the word that stands for `s` as one word, and reads `s`
/// from it.
pub proof fn lemma_shell_quoted(s: Seq<char>)
    ensures
        is_shell_word(shell_quoted(s), false),
        shell_read(shell_quoted(s), false) == s,
{
    let word = shell_quoted(s);
    let closing = seq!['\''];
    lemma_shell_read_quoted(s, closing);
    assert(word.drop_first() == quoted_chars(s) + closing);
    assert(closing.drop_first() == Seq::<char>::empty());
    assert(shell_read(closing.drop_first(), false) == Seq::<char>::empty());
    assert(shell_read(closing, true) == Seq::<char>::empty());
    assert(is_shell_word(closing.drop_first(), false));
    assert(is_shell_word(closing, true));
    assert(s + Seq::<char>::empty() == s);
}

/// Building a job stores exactly one commit: the request after six
/// answers, and no other. It has no parent, and its message is the commit
/// message of the job.
pub proof fn lemma_one_commit(job: JobView, shas: Seq<Seq<char>>)
    ensures
        shas.len() == 6 <==> request_at(job, shas) is Some && request_at(job, shas)->0
            is CreateCommit,
        shas.len() == 6 ==> request_at(job, shas) == Some(
            Request::CreateCommit {
                message: commit_message(job.correlation_id, job.destination),
                tree: shas[5],
                parents: Seq::empty(),
            },
        ),
{
}

/// Building a job is done after eight answers and not before, and a plan
/// never fails by itself: only an answer of the store makes a build fail.
pub proof fn lemma_build_ends(job: JobView, shas: Seq<Seq<char>>)
    ensures
        step_at(job, shas) is Done <==> shas.len() >= 8,
        step_at(job, shas) is Call <==> shas.len() < 8,
        !(step_at(job, shas) is Failed),
{
}

/// Appends to `out` the shell word that stands for `s`.
pub fn push_shell_quoted(out: &mut String, s: &[char])
    ensures
        final(out)@ == old(out)@ + shell_quoted(s@),
{
    out.push('\'');
    let mut i: usize = 0;
    while i < s.len()
        invariant
            i <= s.len(),
            out@ == old(out)@ + seq!['\''] + quoted_chars(s@.take(i as int)),
        decreases s.len() - i,
    {
        assert(s@.take(i + 1).drop_last() == s@.take(i as int));
        if s[i] == '\'' {
            out.push('\'');
            out.push('\\');
            out.push('\'');
            out.push('\'');
        } else {
            out.push(s[i]);
        }
        i += 1;
    }
    assert(s@.take(s.len() as int) == s@);
    out.push('\'');
}

/// Appends to `out` the flag `key` with the value `value`, as one shell
/// word.
fn push_flag(out: &mut String, key: &str, value: &str)
    ensures
        final(out)@ == old(out)@ + shell_quoted(key@ + value@),
{
    let mut flag = scan::chars_of(key);
    let mut chars = scan::chars_of(value);
    flag.append(&mut chars);
    push_shell_quoted(out, flag.as_slice());
}

/// The workflow description that runs the bisection from `start`, if
/// given, to `end`.
pub fn workflow_text(start: &Option<String>, end: &str) -> (r: String)
    ensures
        r@ == workflow(option_view(*start), end@),
{
    let mut r = String::from_str(WORKFLOW_HEAD);
    match start {
        Some(start) => {
            push_flag(&mut r, "--start=", start.as_str());
            r.push(' ');
        },
        None => {},
    }
    push_flag(&mut r, "--end=", end);
    r.append(WORKFLOW_TAIL);
    r
}

/// The message of the commit of a job.
pub fn commit_message_text(correlation_id: &str, destination: &ReplyTo) -> (r: String)
    ensures
        r@ == commit_message(correlation_id@, destination@),
{
    let mut r = String::from_str(COMMIT_TITLE);
    r.append(correlation_id);
    r.push('\n');
    r.push('\n');
    let header = destination.to_commit_header();
    r.append(header.as_str());
    r
}

/// The reference of the branch of a job.
pub fn branch_name(correlation_id: &str) -> (r: String)
    ensures
        r@ == branch(correlation_id@),
{
    let mut r = String::from_str(BRANCH_PREFIX);
    r.append(correlation_id);
    r
}

fn file_entry(path: &str, sha: &String) -> (r: TreeEntry)
    ensures
        r@ == file(path@, sha@),
{
    TreeEntry {
        path: String::from_str(path),
        mode: EntryMode::File,
        kind: EntryType::Blob,
        sha: sha.clone(),
    }
}

fn directory_entry(path: &str, sha: &String) -> (r: TreeEntry)
    ensures
        r@ == directory(path@, sha@),
{
    TreeEntry {
        path: String::from_str(path),
        mode: EntryMode::Directory,
        kind: EntryType::Tree,
        sha: sha.clone(),
    }
}

/// A job under construction: the job, and the identifiers that the store
/// has returned so far.
#[derive(Debug, Clone, PartialEq, Eq)]
pub struct TreeBuild {
    pub job: Job,
    pub shas: Vec<String>,
}

/// The identifiers that a build holds.
pub open spec fn shas_view(shas: Seq<String>) -> Seq<Seq<char>> {
    Seq::new(shas.len(), |i: int| shas[i]@)
}

/// What building a job does next.
#[derive(Debug, Clone, PartialEq, Eq)]
pub enum Progress {
    /// Send the request, and come back with the answer.
    Call(TreeBuild, StoreRequest),
    /// The branch is published.
    Done,
    /// A request failed; nothing more is sent.
    Failed(TreeError),
}

impl TreeBuild {
    /// The identifiers returned so far.
    pub open spec fn shas(&self) -> Seq<Seq<char>> {
        shas_view(self.shas@)
    }

    /// The build of `job` before its first request.
    pub fn new(job: Job) -> (r: TreeBuild)
        ensures
            r.job == job,
            r.shas() == Seq::<Seq<char>>::empty(),
    {
        TreeBuild { job, shas: Vec::new() }
    }

    /// The request that comes next, if the build is not complete.
    pub fn next_request(&self) -> (r: Option<StoreRequest>)
        ensures
            request_view(r) == request_at(self.job@, self.shas()),
    {
        let n = self.shas.len();
        proof {
            assert forall|i: int| 0 <= i < n implies self.shas()[i] == #[trigger] self.shas@[i]@ by {}
        }
        match &self.job.command {
            Command::Bisect { start, end, code } => {
                if n == 0 {
                    Some(StoreRequest::CreateBlob { content: code.clone() })
                } else if n == 1 {
                    Some(StoreRequest::CreateBlob { content: workflow_text(start, end.as_str()) })
                } else if n == 2 {
                    Some(StoreRequest::CreateBlob { content: String::from_str(MANIFEST) })
                } else if n == 3 {
                    let mut entries: Vec<TreeEntry> = Vec::new();
                    entries.push(file_entry("lib.rs", &self.shas[0]));
                    let r = StoreRequest::CreateTree { entries };
                    assert(r@->CreateTree_entries =~= seq![file("lib.rs"@, self.shas()[0])]);
                    Some(r)
                } else if n == 4 {
                    let mut entries: Vec<TreeEntry> = Vec::new();
                    entries.push(file_entry("workflows/bisect.yaml", &self.shas[1]));
                    let r = StoreRequest::CreateTree { entries };
                    assert(r@->CreateTree_entries =~= seq![
                        file("workflows/bisect.yaml"@, self.shas()[1]),
                    ]);
                    Some(r)
                } else if n == 5 {
                    let mut entries: Vec<TreeEntry> = Vec::new();
                    entries.push(directory_entry("src", &self.shas[3]));
                    entries.push(directory_entry(".github", &self.shas[4]));
                    entries.push(file_entry("Cargo.toml", &self.shas[2]));
                    let r = StoreRequest::CreateTree { entries };
                    assert(r@->CreateTree_entries =~= seq![
                        directory("src"@, self.shas()[3]),
                        directory(".github"@, self.shas()[4]),
                        file("Cargo.toml"@, self.shas()[2]),
                    ]);
                    Some(r)
                } else if n == 6 {
                    let r = StoreRequest::CreateCommit {
                        message: commit_message_text(
                            self.job.correlation_id.as_str(),
                            &self.job.destination,
                        ),
                        tree: self.shas[5].clone(),
                        parents: Vec::new(),
                    };
                    assert(r@->CreateCommit_parents =~= Seq::<Seq<char>>::empty());
                    Some(r)
                } else if n == 7 {
                    Some(
                        StoreRequest::UpdateRef {
                            name: branch_name(self.job.correlation_id.as_str()),
                            sha: self.shas[6].clone(),
                            force: true,
                        },
                    )
                } else {
                    None
                }
            },
        }
    }
}

/// The view of a step of a build.
pub enum Step {
    Call { job: JobView, shas: Seq<Seq<char>>, request: Request },
    Done,
    Failed { step: nat, cause: Seq<char> },
}

/// The view of what building a job does next.
pub open spec fn progress_view(p: Progress) -> Step {
    match p {
        Progress::Call(build, request) => Step::Call {
            job: build.job@,
            shas: build.shas(),
            request: request@,
        },
        Progress::Done => Step::Done,
        Progress::Failed(e) => Step::Failed { step: e.step as nat, cause: e.cause@ },
    }
}

/// What building `job` does after the store has answered the requests so
/// far with `shas`: the next request, or nothing more.
pub open spec fn step_at(job: JobView, shas: Seq<Seq<char>>) -> Step {
    match request_at(job, shas) {
        Some(request) => Step::Call { job, shas, request },
        None => Step::Done,
    }
}

/// Starts building `job`: its first request.
pub fn start(job: Job) -> (r: Progress)
    ensures
        progress_view(r) == step_at(job@, Seq::empty()),
{
    let build = TreeBuild::new(job);
    match build.next_request() {
        Some(request) => Progress::Call(build, request),
        None => Progress::Done,
    }
}

/// Goes on building after the store has answered the last request: with
/// the identifier of the new object, or with the cause of its failure. A
/// failure ends the build at once, and names the step that failed.
pub fn advance(build: TreeBuild, reply: Result<String, String>) -> (r: Progress)
    ensures
        progress_view(r) == (match reply {
            Ok(sha) => step_at(build.job@, build.shas().push(sha@)),
            Err(cause) => Step::Failed { step: build.shas().len(), cause: cause@ },
        }),
{
    match reply {
        Err(cause) => Progress::Failed(TreeError { step: build.shas.len(), cause }),
        Ok(sha) => {
            let mut build = build;
            let ghost before = build.shas();
            build.shas.push(sha);
            assert(build.shas() =~= before.push(sha@));
            match build.next_request() {
                Some(request) => Progress::Call(build, request),
                None => Progress::Done,
            }
        },
    }
}

/// The identifier of the object that the reply `body` of the store
/// describes, where `body` is a JSON object with a string under `sha`.
pub open spec fn answered_sha(body: Seq<char>) -> Option<Seq<char>> {
    match json::json_document(body) {
        Some(object) => json::member_text(object, "sha"@),
        None => None,
    }
}

/// The identifier that the store's answer `body` to `request` stands for:
/// that of the new object, and for a reference the commit it was pointed
/// at, whatever the answer holds.
pub open spec fn stored(request: Request, body: Seq<char>) -> Option<Seq<char>> {
    match request {
        Request::UpdateRef { sha, .. } => Some(sha),
        _ => answered_sha(body),
    }
}

/// The identifier of the object that the reply `body` of the store
/// describes.
pub fn object_sha(body: &str) -> (r: Option<String>)
    ensures
        option_view(r) == answered_sha(body@),
{
    match json::parse(body) {
        Ok(object) => json::text_of(&object, "sha"),
        Err(_) => None,
    }
}

/// The identifier that the store's answer `body` to `request` stands for.
pub fn stored_sha(request: &StoreRequest, body: &str) -> (r: Option<String>)
    ensures
        option_view(r) == stored(request@, body@),
{
    match request {
        StoreRequest::UpdateRef { sha, .. } => Some(sha.clone()),
        _ => object_sha(body),
    }
}

} // verus!
