//! Pushing a job's output files to a branch of a GitHub repository, as a sequence of
//! GitHub API calls: find the branch (or create it from the default branch), store each
//! file as a blob (binary files base64-encoded), build a tree on the branch's commit,
//! commit it, and move the branch to the commit. The API calls are made around this state
//! machine; it decides each next call from the last answer.

use vstd::prelude::*;
use crate::executor::{parse_repo, repo_parts, ExecutorError, OutputFile};
use vstd::utf8::encode_utf8;

verus! {

/// The character of a base64 digit (standard alphabet).
pub open spec fn b64_char(v: int) -> char {
    if v < 26 {
        ('A' as int + v) as char
    } else if v < 52 {
        ('a' as int + (v - 26)) as char
    } else if v < 62 {
        ('0' as int + (v - 52)) as char
    } else if v == 62 {
        '+'
    } else {
        '/'
    }
}

/// The standard base64 text of `b` (RFC 4648): each three bytes become four digits, and
/// a last group of one or two bytes is padded with `=`.
pub open spec fn base64_text(b: Seq<u8>) -> Seq<char>
    decreases b.len(),
{
    if b.len() == 0 {
        Seq::empty()
    } else if b.len() == 1 {
        let x = b[0] as int;
        seq![b64_char(x / 4), b64_char((x % 4) * 16), '=', '=']
    } else if b.len() == 2 {
        let (x, y) = (b[0] as int, b[1] as int);
        seq![b64_char(x / 4), b64_char((x % 4) * 16 + y / 16), b64_char((y % 16) * 4), '=']
    } else {
        let (x, y, z) = (b[0] as int, b[1] as int, b[2] as int);
        seq![
            b64_char(x / 4),
            b64_char((x % 4) * 16 + y / 16),
            b64_char((y % 16) * 4 + z / 64),
            b64_char(z % 64),
        ] + base64_text(b.skip(3))
    }
}

/// `base64::engine::general_purpose::STANDARD.encode`: the standard base64 text of the
/// bytes, padded. The crate panics when the length of the text overflows `usize`, which
/// the bound excludes.
#[verifier::external_body]
fn base64_standard(bytes: &[u8]) -> (r: String)
    requires
        (bytes@.len() / 3) * 4 + 4 <= usize::MAX,
    ensures
        r@ == base64_text(bytes@),
{
    base64::Engine::encode(&base64::engine::general_purpose::STANDARD, bytes)
}

/// The content of a file's blob and its encoding: binary files as the base64 text of
/// their UTF-8 bytes, others as they are.
pub open spec fn blob_of(f: OutputFile) -> (Seq<char>, Seq<char>) {
    if f.binary {
        (base64_text(encode_utf8(f.content@)), "base64"@)
    } else {
        (f.content@, "utf-8"@)
    }
}

/// An entry of the tree to commit: a file at `path` whose content is the blob `sha`.
#[derive(Debug, PartialEq, Eq)]
pub struct TreeEntry {
    pub path: String,
    pub mode: String,
    pub sha: String,
}

/// The next GitHub API call, or the end of the push.
#[derive(Debug)]
pub enum GitHubCall {
    /// Read the reference (`heads/<branch>`).
    GetRef { reference: String },
    /// Read the repository (for its default branch).
    GetRepo,
    /// Create the reference `refs/heads/<branch>` at `sha`.
    CreateRef { reference: String, sha: String },
    CreateBlob { content: String, encoding: String },
    CreateTree { base: String, entries: Vec<TreeEntry> },
    CreateCommit { message: String, tree: String, parent: String },
    /// Move the reference to `sha`, not forced.
    UpdateRef { reference: String, sha: String, force: bool },
    /// The push is over.
    Finish(Result<(), ExecutorError>),
}

/// The answer to the last call.
#[derive(Debug)]
pub enum GitHubAnswer {
    /// A reference's commit, a repository's default branch, a blob, tree or commit
    /// identifier.
    Got(String),
    /// A commit was created but its answer has no identifier.
    NoSha,
    /// Done, with nothing to report.
    Done,
    /// The call failed.
    Failed(String),
}

/// Where a push stands.
#[derive(Clone, Copy, Debug, PartialEq, Eq, Structural)]
pub enum PushPhase {
    FindBranch,
    FindRepo,
    FindDefault,
    CreateBranch,
    Blobs,
    Tree,
    Commit,
    MoveBranch,
    Finished,
}

/// A push in progress.
#[derive(Debug)]
pub struct GitHubPush {
    pub owner: String,
    pub repo: String,
    pub branch: String,
    pub message: String,
    pub files: Vec<OutputFile>,
    pub phase: PushPhase,
    /// The commit the new one builds on.
    pub base: String,
    /// The blobs stored so far, one per file in order.
    pub entries: Vec<TreeEntry>,
}

/// The commit message of an output: the configured one, else `Update from adi-executor`.
pub open spec fn commit_message_of(m: Option<Seq<char>>) -> Seq<char> {
    match m {
        Some(t) => t,
        None => "Update from adi-executor"@,
    }
}

/// The commit message of an output (see `commit_message_of`).
pub fn commit_message(configured: &Option<String>) -> (r: String)
    ensures
        r@ == commit_message_of(
            match configured {
                Some(t) => Some(t@),
                None => None,
            },
        ),
{
    match configured {
        Some(t) => t.clone(),
        None => "Update from adi-executor".to_owned(),
    }
}

fn concat(a: &str, b: &str) -> (r: String)
    ensures
        r@ == a@ + b@,
{
    let mut r = a.to_owned();
    r.append(b);
    r
}

/// `c` ends the push with `GitPushFailed(message)`.
pub open spec fn fails_with(c: GitHubCall, message: Seq<char>) -> bool {
    match c {
        GitHubCall::Finish(Err(ExecutorError::GitPushFailed(m))) => m@ == message,
        _ => false,
    }
}

/// The tree entries' paths, modes and blobs.
pub open spec fn entry_views(es: Seq<TreeEntry>) -> Seq<(Seq<char>, Seq<char>, Seq<char>)> {
    es.map_values(|e: TreeEntry| (e.path@, e.mode@, e.sha@))
}

/// The call that stores the blob of file `i`.
pub open spec fn blob_call(files: Seq<OutputFile>, i: int, c: GitHubCall) -> bool {
    match c {
        GitHubCall::CreateBlob { content, encoding } => (content@, encoding@) == blob_of(files[i]),
        _ => false,
    }
}

/// The call that follows the stored blobs: the next file's blob, or the tree on `base`
/// once every file has its blob.
pub open spec fn after_blobs(p: GitHubPush, c: GitHubCall) -> bool {
    if p.entries@.len() < p.files@.len() {
        &&& p.phase == PushPhase::Blobs
        &&& blob_call(p.files@, p.entries@.len() as int, c)
    } else {
        &&& p.phase == PushPhase::Tree
        &&& match c {
            GitHubCall::CreateTree { base, entries } => base@ == p.base@ && entries@ == p.entries@,
            _ => false,
        }
    }
}

/// Whether every file's content can be encoded (its base64 text fits in memory).
pub open spec fn encodable(files: Seq<OutputFile>) -> bool {
    forall|i: int| 0 <= i < files.len() ==> (encode_utf8(#[trigger] files[i].content@).len() / 3) * 4 + 4 <= usize::MAX
}

impl GitHubPush {
    /// The push stays the push of the same files, owner, repository, branch and message.
    pub open spec fn same_target(&self, other: &GitHubPush) -> bool {
        &&& self.owner == other.owner
        &&& self.repo == other.repo
        &&& self.branch == other.branch
        &&& self.message == other.message
        &&& self.files == other.files
    }

    /// The stored blobs name the files in order, each with mode `100644`.
    pub open spec fn wf(&self) -> bool {
        &&& self.entries@.len() <= self.files@.len()
        &&& self.phase == PushPhase::Blobs ==> self.entries@.len() < self.files@.len()
        &&& (self.phase == PushPhase::FindBranch || self.phase == PushPhase::FindRepo
            || self.phase == PushPhase::FindDefault || self.phase == PushPhase::CreateBranch)
            ==> self.entries@.len() == 0
        &&& forall|i: int| 0 <= i < self.entries@.len() ==> {
            &&& (#[trigger] self.entries@[i]).path == self.files@[i].path
            &&& self.entries@[i].mode@ == "100644"@
        }
        &&& encodable(self.files@)
    }

    /// Starts pushing `files` to `branch` of `repo` (`owner/name`) with `message`: reads
    /// the branch, or fails at once for a repository not written `owner/name`.
    pub fn start(repo: &str, branch: &str, files: Vec<OutputFile>, message: String) -> (r: (Option<GitHubPush>, GitHubCall))
        requires
            encodable(files@),
        ensures
            match repo_parts(repo@) {
                None => r.0 is None && fails_with(r.1, "Invalid repo format: "@ + repo@ + ". Expected 'owner/repo'"@),
                Some((o, n)) => match r.0 {
                    Some(p) => {
                        &&& p.wf()
                        &&& p.owner@ == o && p.repo@ == n && p.branch@ == branch@
                        &&& p.message == message && p.files == files
                        &&& p.entries@.len() == 0
                        &&& p.phase == PushPhase::FindBranch
                        &&& r.1 matches GitHubCall::GetRef { reference } && reference@ == "heads/"@ + branch@
                    },
                    None => false,
                },
            },
    {
        match parse_repo(repo) {
            Err(e) => (None, GitHubCall::Finish(Err(e))),
            Ok((owner, name)) => {
                let p = GitHubPush {
                    owner,
                    repo: name,
                    branch: branch.to_owned(),
                    message,
                    files,
                    phase: PushPhase::FindBranch,
                    base: String::new(),
                    entries: Vec::new(),
                };
                let call = GitHubCall::GetRef { reference: concat("heads/", branch) };
                (Some(p), call)
            },
        }
    }

    /// The next call once the blobs so far are stored.
    fn next_blob_or_tree(&mut self) -> (c: GitHubCall)
        requires
            old(self).wf(),
        ensures
            final(self).wf(),
            final(self).same_target(&*old(self)),
            final(self).base == old(self).base,
            final(self).entries == old(self).entries,
            after_blobs(*final(self), c),
    {
        let i = self.entries.len();
        if i < self.files.len() {
            self.phase = PushPhase::Blobs;
            if self.files[i].binary {
                proof {
                    assert(encodable(self.files@));
                    assert((encode_utf8(self.files@[i as int].content@).len() / 3) * 4 + 4 <= usize::MAX);
                }
                let content = base64_standard(self.files[i].content.as_str().as_bytes());
                GitHubCall::CreateBlob { content, encoding: "base64".to_owned() }
            } else {
                GitHubCall::CreateBlob { content: self.files[i].content.clone(), encoding: "utf-8".to_owned() }
            }
        } else {
            self.phase = PushPhase::Tree;
            let mut entries: Vec<TreeEntry> = Vec::new();
            let mut k: usize = 0;
            while k < self.entries.len()
                invariant
                    k <= self.entries@.len(),
                    entries@.len() == k,
                    forall|j: int| 0 <= j < k ==> #[trigger] entries@[j] == self.entries@[j],
                decreases self.entries@.len() - k,
            {
                let e = TreeEntry {
                    path: self.entries[k].path.clone(),
                    mode: self.entries[k].mode.clone(),
                    sha: self.entries[k].sha.clone(),
                };
                entries.push(e);
                k = k + 1;
            }
            assert(entries@ =~= self.entries@);
            GitHubCall::CreateTree { base: self.base.clone(), entries }
        }
    }

    /// Whether `answer` can answer the last call: a reading or creating call gives an
    /// identifier, a repository its default branch, creating and moving a reference
    /// nothing; a commit may come without identifier; any call may fail.
    pub open spec fn expects(&self, answer: GitHubAnswer) -> bool {
        match answer {
            GitHubAnswer::Failed(_) => self.phase != PushPhase::Finished,
            GitHubAnswer::Got(_) => self.phase != PushPhase::Finished && self.phase != PushPhase::CreateBranch
                && self.phase != PushPhase::MoveBranch,
            GitHubAnswer::Done => self.phase == PushPhase::CreateBranch || self.phase == PushPhase::MoveBranch,
            GitHubAnswer::NoSha => self.phase == PushPhase::Commit,
        }
    }

    /// The next call after `answer` to the last one. A failure ends the push with
    /// `GitPushFailed` and its message, except the first read of the branch: a branch
    /// that cannot be read is created from the commit of the repository's default
    /// branch. Each file is then stored as a blob in order, the tree of their entries
    /// (mode `100644`) built on the branch's commit, committed with the message on top
    /// of that commit, and the branch moved (not forced) to the new commit. A commit
    /// answer without an identifier fails with `Missing commit sha`.
    pub fn step(&mut self, answer: GitHubAnswer) -> (c: GitHubCall)
        requires
            old(self).wf(),
            old(self).expects(answer),
        ensures
            final(self).wf(),
            final(self).same_target(&*old(self)),
            match (old(self).phase, answer) {
                (PushPhase::FindBranch, GitHubAnswer::Got(sha)) => final(self).base == sha
                    && final(self).entries@.len() == 0 && after_blobs(*final(self), c),
                (PushPhase::FindBranch, GitHubAnswer::Failed(_)) => final(self).phase == PushPhase::FindRepo
                    && c == GitHubCall::GetRepo,
                (PushPhase::FindRepo, GitHubAnswer::Got(default_branch)) => {
                    &&& final(self).phase == PushPhase::FindDefault
                    &&& c matches GitHubCall::GetRef { reference } && reference@ == "heads/"@ + default_branch@
                },
                (PushPhase::FindDefault, GitHubAnswer::Got(sha)) => {
                    &&& final(self).phase == PushPhase::CreateBranch
                    &&& final(self).base == sha
                    &&& c matches GitHubCall::CreateRef { reference, sha: at }
                        && reference@ == "refs/heads/"@ + old(self).branch@ && at == sha
                },
                (PushPhase::CreateBranch, GitHubAnswer::Done) => final(self).base == old(self).base
                    && final(self).entries@.len() == 0 && after_blobs(*final(self), c),
                (PushPhase::Blobs, GitHubAnswer::Got(sha)) => final(self).base == old(self).base
                    && final(self).entries@.len() == old(self).entries@.len() + 1
                    && final(self).entries@.drop_last() == old(self).entries@
                    && final(self).entries@.last().sha == sha
                    && after_blobs(*final(self), c),
                (PushPhase::Tree, GitHubAnswer::Got(tree)) => final(self).phase == PushPhase::Commit
                    && c == (GitHubCall::CreateCommit { message: old(self).message, tree, parent: old(self).base }),
                (PushPhase::Commit, GitHubAnswer::Got(sha)) => {
                    &&& final(self).phase == PushPhase::MoveBranch
                    &&& c matches GitHubCall::UpdateRef { reference, sha: to, force }
                        && reference@ == "heads/"@ + old(self).branch@ && to == sha && !force
                },
                (PushPhase::Commit, GitHubAnswer::NoSha) => final(self).phase == PushPhase::Finished
                    && fails_with(c, "Missing commit sha"@),
                (PushPhase::MoveBranch, GitHubAnswer::Done) => final(self).phase == PushPhase::Finished
                    && c == GitHubCall::Finish(Ok(())),
                (_, GitHubAnswer::Failed(e)) => final(self).phase == PushPhase::Finished && fails_with(c, e@),
                _ => false,
            },
    {
        match (self.phase, answer) {
            (PushPhase::FindBranch, GitHubAnswer::Got(sha)) => {
                self.base = sha;
                self.next_blob_or_tree()
            },
            (PushPhase::FindBranch, GitHubAnswer::Failed(_)) => {
                self.phase = PushPhase::FindRepo;
                GitHubCall::GetRepo
            },
            (PushPhase::FindRepo, GitHubAnswer::Got(default_branch)) => {
                self.phase = PushPhase::FindDefault;
                GitHubCall::GetRef { reference: concat("heads/", default_branch.as_str()) }
            },
            (PushPhase::FindDefault, GitHubAnswer::Got(sha)) => {
                self.phase = PushPhase::CreateBranch;
                self.base = sha.clone();
                GitHubCall::CreateRef { reference: concat("refs/heads/", self.branch.as_str()), sha }
            },
            (PushPhase::CreateBranch, GitHubAnswer::Done) => self.next_blob_or_tree(),
            (PushPhase::Blobs, GitHubAnswer::Got(sha)) => {
                let i = self.entries.len();
                let e = TreeEntry { path: self.files[i].path.clone(), mode: "100644".to_owned(), sha };
                let ghost before = self.entries@;
                self.entries.push(e);
                self.phase = PushPhase::Tree;
                assert(self.entries@.drop_last() =~= before);
                self.next_blob_or_tree()
            },
            (PushPhase::Tree, GitHubAnswer::Got(tree)) => {
                self.phase = PushPhase::Commit;
                GitHubCall::CreateCommit { message: self.message.clone(), tree, parent: self.base.clone() }
            },
            (PushPhase::Commit, GitHubAnswer::Got(sha)) => {
                self.phase = PushPhase::MoveBranch;
                GitHubCall::UpdateRef { reference: concat("heads/", self.branch.as_str()), sha, force: false }
            },
            (PushPhase::Commit, GitHubAnswer::NoSha) => {
                self.phase = PushPhase::Finished;
                GitHubCall::Finish(Err(ExecutorError::GitPushFailed("Missing commit sha".to_owned())))
            },
            (PushPhase::MoveBranch, GitHubAnswer::Done) => {
                self.phase = PushPhase::Finished;
                GitHubCall::Finish(Ok(()))
            },
            (_, GitHubAnswer::Failed(e)) => {
                self.phase = PushPhase::Finished;
                GitHubCall::Finish(Err(ExecutorError::GitPushFailed(e)))
            },
            (_, GitHubAnswer::Got(_)) | (_, GitHubAnswer::Done) | (_, GitHubAnswer::NoSha) => {
                proof {
                    assert(false);
                }
                GitHubCall::GetRepo
            },
        }
    }
}

} // verus!
