//! The job executor: packages (container images) run by a worker inside a container, what
//! they are asked, where their output goes, and how failures are reported.

use vstd::prelude::*;
use crate::case::{to_uppercase, uppercase};
use crate::text::{chars_of, string_of};

verus! {

/// Architecture of a container image.
#[derive(Clone, Copy, Debug, PartialEq, Eq, Structural)]
pub enum ContainerArch {
    Amd64,
    Arm64,
}

impl ContainerArch {
    /// The Rust target of the worker binary for this architecture.
    pub fn target_triple(&self) -> (r: &'static str)
        ensures
            r@ == (match *self {
                ContainerArch::Amd64 => "x86_64-unknown-linux-musl"@,
                ContainerArch::Arm64 => "aarch64-unknown-linux-musl"@,
            }),
    {
        match self {
            ContainerArch::Amd64 => "x86_64-unknown-linux-musl",
            ContainerArch::Arm64 => "aarch64-unknown-linux-musl",
        }
    }

    /// The suffix of worker binaries for this architecture.
    pub fn binary_suffix(&self) -> (r: &'static str)
        ensures
            r@ == arch_suffix(*self),
    {
        match self {
            ContainerArch::Amd64 => "x86_64",
            ContainerArch::Arm64 => "aarch64",
        }
    }
}

/// The suffix of worker binaries for an architecture.
pub open spec fn arch_suffix(a: ContainerArch) -> Seq<char> {
    match a {
        ContainerArch::Amd64 => "x86_64"@,
        ContainerArch::Arm64 => "aarch64"@,
    }
}

/// A container started for a job.
#[derive(Debug)]
pub struct ContainerInfo {
    pub id: String,
    pub name: String,
    pub output_dir: String,
}

/// What inspecting an image found.
#[derive(Debug)]
pub struct VerifyInfo {
    pub image_id: Option<String>,
    pub size: Option<u64>,
}

/// The names of worker binaries looked for, in order: the one for the architecture, then
/// a generic one (`adi-worker` on Linux hosts, `adi-worker-linux` elsewhere).
pub open spec fn worker_names(a: ContainerArch, linux_host: bool) -> Seq<Seq<char>> {
    seq!["adi-worker-"@ + arch_suffix(a), if linux_host { "adi-worker"@ } else { "adi-worker-linux"@ }]
}

/// The names of worker binaries looked for, in order.
pub fn worker_binary_names(arch: ContainerArch, linux_host: bool) -> (r: Vec<String>)
    ensures
        crate::text::texts(r@) == worker_names(arch, linux_host),
{
    let mut first = "adi-worker-".to_owned();
    first.append(arch.binary_suffix());
    let second = if linux_host { "adi-worker".to_owned() } else { "adi-worker-linux".to_owned() };
    let r = vec![first, second];
    assert(crate::text::texts(r@) =~= worker_names(arch, linux_host));
    r
}

/// The environment variables naming a worker binary, in order: the one for the
/// architecture (its suffix in uppercase), then the generic one.
pub fn worker_env_vars(arch: ContainerArch) -> (r: Vec<String>)
    ensures
        crate::text::texts(r@) == seq!["ADI_WORKER_BINARY_"@ + uppercase(arch_suffix(arch)), "ADI_WORKER_BINARY"@],
{
    let mut first = "ADI_WORKER_BINARY_".to_owned();
    let up = to_uppercase(arch.binary_suffix());
    first.append(up.as_str());
    let r = vec![first, "ADI_WORKER_BINARY".to_owned()];
    assert(crate::text::texts(r@) =~= seq!["ADI_WORKER_BINARY_"@ + uppercase(arch_suffix(arch)), "ADI_WORKER_BINARY"@]);
    r
}

/// The places a worker binary is looked for after the environment variables, in order:
/// beside the running executable (each name), then in `target/release` and `target/debug`
/// under the working directory (each name), then the cross-compiled `adi-worker` for the
/// architecture's target (release, then debug).
pub open spec fn worker_candidates(a: ContainerArch, linux_host: bool, exe_dir: Option<Seq<char>>, cwd: Seq<char>) -> Seq<Seq<char>> {
    let names = worker_names(a, linux_host);
    let triple = match a {
        ContainerArch::Amd64 => "x86_64-unknown-linux-musl"@,
        ContainerArch::Arm64 => "aarch64-unknown-linux-musl"@,
    };
    let beside = match exe_dir {
        Some(d) => seq![crate::flags::joined(d, names[0]), crate::flags::joined(d, names[1])],
        None => Seq::empty(),
    };
    let target = crate::flags::joined(cwd, "target"@);
    beside + seq![
        crate::flags::joined(crate::flags::joined(target, "release"@), names[0]),
        crate::flags::joined(crate::flags::joined(target, "release"@), names[1]),
        crate::flags::joined(crate::flags::joined(target, "debug"@), names[0]),
        crate::flags::joined(crate::flags::joined(target, "debug"@), names[1]),
        crate::flags::joined(crate::flags::joined(crate::flags::joined(target, triple), "release"@), "adi-worker"@),
        crate::flags::joined(crate::flags::joined(crate::flags::joined(target, triple), "debug"@), "adi-worker"@),
    ]
}

/// The places a worker binary is looked for after the environment variables, in order.
pub fn worker_binary_candidates(arch: ContainerArch, linux_host: bool, exe_dir: Option<&str>, cwd: &str) -> (r: Vec<String>)
    ensures
        crate::text::texts(r@) == worker_candidates(arch, linux_host, match exe_dir {
            Some(d) => Some(d@),
            None => None,
        }, cwd@),
{
    let names = worker_binary_names(arch, linux_host);
    assert(crate::text::texts(names@).len() == names@.len());
    assert(names@[0]@ == worker_names(arch, linux_host)[0]);
    assert(names@[1]@ == worker_names(arch, linux_host)[1]);
    let mut out: Vec<String> = Vec::new();
    match exe_dir {
        Some(d) => {
            out.push(crate::flags::join_path(d, names[0].as_str()));
            out.push(crate::flags::join_path(d, names[1].as_str()));
        },
        None => {},
    }
    let target = crate::flags::join_path(cwd, "target");
    let rel = crate::flags::join_path(target.as_str(), "release");
    let dbg = crate::flags::join_path(target.as_str(), "debug");
    out.push(crate::flags::join_path(rel.as_str(), names[0].as_str()));
    out.push(crate::flags::join_path(rel.as_str(), names[1].as_str()));
    out.push(crate::flags::join_path(dbg.as_str(), names[0].as_str()));
    out.push(crate::flags::join_path(dbg.as_str(), names[1].as_str()));
    let cross = crate::flags::join_path(target.as_str(), arch.target_triple());
    let cr = crate::flags::join_path(cross.as_str(), "release");
    let cd = crate::flags::join_path(cross.as_str(), "debug");
    out.push(crate::flags::join_path(cr.as_str(), "adi-worker"));
    out.push(crate::flags::join_path(cd.as_str(), "adi-worker"));
    assert(crate::text::texts(out@) =~= worker_candidates(arch, linux_host, match exe_dir {
        Some(d) => Some(d@),
        None => None,
    }, cwd@));
    out
}

/// The message when no worker binary is found.
pub fn worker_not_found(arch: ContainerArch) -> (r: ExecutorError)
    ensures
        r matches ExecutorError::Internal(m) && m@ == "adi-worker binary for "@ + arch_suffix(arch)
            + " not found. Build with: cross build -p adi-worker --release --target "@ + (match arch {
            ContainerArch::Amd64 => "x86_64-unknown-linux-musl"@,
            ContainerArch::Arm64 => "aarch64-unknown-linux-musl"@,
        }),
{
    let mut m = "adi-worker binary for ".to_owned();
    m.append(arch.binary_suffix());
    m.append(" not found. Build with: cross build -p adi-worker --release --target ");
    m.append(arch.target_triple());
    ExecutorError::Internal(m)
}

// ---------------------------------------------------------------------------
// Errors
// ---------------------------------------------------------------------------

/// The kind of an error, as reported to API clients.
#[derive(Clone, Copy, Debug, PartialEq, Eq, Structural)]
pub enum ErrorCode {
    DockerConnection,
    DockerApi,
    SocketSetupFailed,
    ContainerCreateFailed,
    ContainerStartFailed,
    ImagePullFailed,
    ImageNotFound,
    RegistryAuth,
    WorkerInvalidResponse,
    ExecutionFailed,
    OutputHandlerFailed,
    GitPushFailed,
    GitCloneFailed,
    GitAuthFailed,
    WebhookFailed,
    JobNotFound,
    JobAlreadyExists,
    InvalidPackageType,
    InvalidImageFormat,
    InvalidUrl,
    InvalidUuid,
    InvalidConfig,
    MissingField,
    InvalidJson,
    HttpRequestFailed,
    HttpTimeout,
    Internal,
}

/// An error as reported to API clients.
#[derive(Debug)]
pub struct ApiError {
    pub code: ErrorCode,
    pub details: Option<String>,
}

impl ApiError {
    /// An error of kind `code` without details.
    pub fn new(code: ErrorCode) -> (r: Self)
        ensures
            r.code == code,
            r.details is None,
    {
        ApiError { code, details: None }
    }

    /// An error of kind `code` with details.
    pub fn with_details(code: ErrorCode, details: &str) -> (r: Self)
        ensures
            r.code == code,
            r.details matches Some(d) && d@ == details@,
    {
        ApiError { code, details: Some(details.to_owned()) }
    }
}

/// A failure of the executor, with what went wrong (the message of the failing library
/// where one failed).
#[derive(Debug)]
pub enum ExecutorError {
    DockerConnection(String),
    DockerApi(String),
    SocketSetupFailed(String),
    ContainerCreateFailed(String),
    ContainerStartFailed(String),
    ImagePullFailed(String),
    ImageNotFound(String),
    RegistryAuth(String),
    WorkerInvalidResponse(String),
    OutputHandlerFailed(String),
    GitPushFailed(String),
    GitCloneFailed(String),
    GitAuthFailed(String),
    WebhookFailed(String),
    /// The job, by identifier.
    JobNotFound(String),
    InvalidConfig(String),
    HttpRequest(String),
    HttpTimeout(String),
    Internal(String),
}

/// The code of an executor error.
pub open spec fn code_of(e: ExecutorError) -> ErrorCode {
    match e {
        ExecutorError::DockerConnection(_) => ErrorCode::DockerConnection,
        ExecutorError::DockerApi(_) => ErrorCode::DockerApi,
        ExecutorError::SocketSetupFailed(_) => ErrorCode::SocketSetupFailed,
        ExecutorError::ContainerCreateFailed(_) => ErrorCode::ContainerCreateFailed,
        ExecutorError::ContainerStartFailed(_) => ErrorCode::ContainerStartFailed,
        ExecutorError::ImagePullFailed(_) => ErrorCode::ImagePullFailed,
        ExecutorError::ImageNotFound(_) => ErrorCode::ImageNotFound,
        ExecutorError::RegistryAuth(_) => ErrorCode::RegistryAuth,
        ExecutorError::WorkerInvalidResponse(_) => ErrorCode::WorkerInvalidResponse,
        ExecutorError::OutputHandlerFailed(_) => ErrorCode::OutputHandlerFailed,
        ExecutorError::GitPushFailed(_) => ErrorCode::GitPushFailed,
        ExecutorError::GitCloneFailed(_) => ErrorCode::GitCloneFailed,
        ExecutorError::GitAuthFailed(_) => ErrorCode::GitAuthFailed,
        ExecutorError::WebhookFailed(_) => ErrorCode::WebhookFailed,
        ExecutorError::JobNotFound(_) => ErrorCode::JobNotFound,
        ExecutorError::InvalidConfig(_) => ErrorCode::InvalidConfig,
        ExecutorError::HttpRequest(_) => ErrorCode::HttpRequestFailed,
        ExecutorError::HttpTimeout(_) => ErrorCode::HttpTimeout,
        ExecutorError::Internal(_) => ErrorCode::Internal,
    }
}

/// The details of an executor error.
pub open spec fn details_of(e: ExecutorError) -> Seq<char> {
    match e {
        ExecutorError::DockerConnection(s) => s@,
        ExecutorError::DockerApi(s) => s@,
        ExecutorError::SocketSetupFailed(s) => s@,
        ExecutorError::ContainerCreateFailed(s) => s@,
        ExecutorError::ContainerStartFailed(s) => s@,
        ExecutorError::ImagePullFailed(s) => s@,
        ExecutorError::ImageNotFound(s) => s@,
        ExecutorError::RegistryAuth(s) => s@,
        ExecutorError::WorkerInvalidResponse(s) => s@,
        ExecutorError::OutputHandlerFailed(s) => s@,
        ExecutorError::GitPushFailed(s) => s@,
        ExecutorError::GitCloneFailed(s) => s@,
        ExecutorError::GitAuthFailed(s) => s@,
        ExecutorError::WebhookFailed(s) => s@,
        ExecutorError::JobNotFound(s) => s@,
        ExecutorError::InvalidConfig(s) => s@,
        ExecutorError::HttpRequest(s) => s@,
        ExecutorError::HttpTimeout(s) => s@,
        ExecutorError::Internal(s) => s@,
    }
}

impl ExecutorError {
    /// The code reported for this error.
    pub fn code(&self) -> (r: ErrorCode)
        ensures
            r == code_of(*self),
    {
        match self {
            ExecutorError::DockerConnection(_) => ErrorCode::DockerConnection,
            ExecutorError::DockerApi(_) => ErrorCode::DockerApi,
            ExecutorError::SocketSetupFailed(_) => ErrorCode::SocketSetupFailed,
            ExecutorError::ContainerCreateFailed(_) => ErrorCode::ContainerCreateFailed,
            ExecutorError::ContainerStartFailed(_) => ErrorCode::ContainerStartFailed,
            ExecutorError::ImagePullFailed(_) => ErrorCode::ImagePullFailed,
            ExecutorError::ImageNotFound(_) => ErrorCode::ImageNotFound,
            ExecutorError::RegistryAuth(_) => ErrorCode::RegistryAuth,
            ExecutorError::WorkerInvalidResponse(_) => ErrorCode::WorkerInvalidResponse,
            ExecutorError::OutputHandlerFailed(_) => ErrorCode::OutputHandlerFailed,
            ExecutorError::GitPushFailed(_) => ErrorCode::GitPushFailed,
            ExecutorError::GitCloneFailed(_) => ErrorCode::GitCloneFailed,
            ExecutorError::GitAuthFailed(_) => ErrorCode::GitAuthFailed,
            ExecutorError::WebhookFailed(_) => ErrorCode::WebhookFailed,
            ExecutorError::JobNotFound(_) => ErrorCode::JobNotFound,
            ExecutorError::InvalidConfig(_) => ErrorCode::InvalidConfig,
            ExecutorError::HttpRequest(_) => ErrorCode::HttpRequestFailed,
            ExecutorError::HttpTimeout(_) => ErrorCode::HttpTimeout,
            ExecutorError::Internal(_) => ErrorCode::Internal,
        }
    }

    /// The details reported for this error.
    pub fn details(&self) -> (r: Option<String>)
        ensures
            r matches Some(d) && d@ == details_of(*self),
    {
        match self {
            ExecutorError::DockerConnection(s) => Some(s.clone()),
            ExecutorError::DockerApi(s) => Some(s.clone()),
            ExecutorError::SocketSetupFailed(s) => Some(s.clone()),
            ExecutorError::ContainerCreateFailed(s) => Some(s.clone()),
            ExecutorError::ContainerStartFailed(s) => Some(s.clone()),
            ExecutorError::ImagePullFailed(s) => Some(s.clone()),
            ExecutorError::ImageNotFound(s) => Some(s.clone()),
            ExecutorError::RegistryAuth(s) => Some(s.clone()),
            ExecutorError::WorkerInvalidResponse(s) => Some(s.clone()),
            ExecutorError::OutputHandlerFailed(s) => Some(s.clone()),
            ExecutorError::GitPushFailed(s) => Some(s.clone()),
            ExecutorError::GitCloneFailed(s) => Some(s.clone()),
            ExecutorError::GitAuthFailed(s) => Some(s.clone()),
            ExecutorError::WebhookFailed(s) => Some(s.clone()),
            ExecutorError::JobNotFound(s) => Some(s.clone()),
            ExecutorError::InvalidConfig(s) => Some(s.clone()),
            ExecutorError::HttpRequest(s) => Some(s.clone()),
            ExecutorError::HttpTimeout(s) => Some(s.clone()),
            ExecutorError::Internal(s) => Some(s.clone()),
        }
    }

    /// The error as reported to API clients.
    pub fn to_api_error(&self) -> (r: ApiError)
        ensures
            r.code == code_of(*self),
            r.details matches Some(d) && d@ == details_of(*self),
    {
        ApiError { code: self.code(), details: self.details() }
    }
}

// ---------------------------------------------------------------------------
// Packages and jobs
// ---------------------------------------------------------------------------

/// Where a package's image comes from.
#[derive(Debug)]
pub enum Package {
    /// Public GitHub container registry.
    GithubPublic { image: String },
    /// Private GitHub container registry, with a token.
    GithubPrivate { image: String, user: String, token: String },
    /// Public Docker Hub.
    DockerhubPublic { image: String },
    /// Private Docker Hub, with credentials.
    DockerhubPrivate { image: String, user: String, password: String },
    /// A private registry at a full URL, with credentials.
    RegistryPrivate { url: String, user: String, password: String },
    /// A public registry at a full URL.
    RegistryPublic { url: String },
}

/// The image to pull: GitHub images under `ghcr.io/`, others as written.
pub open spec fn image_url_of(p: Package) -> Seq<char> {
    match p {
        Package::GithubPublic { image } => "ghcr.io/"@ + image@,
        Package::GithubPrivate { image, .. } => "ghcr.io/"@ + image@,
        Package::DockerhubPublic { image } => image@,
        Package::DockerhubPrivate { image, .. } => image@,
        Package::RegistryPrivate { url, .. } => url@,
        Package::RegistryPublic { url } => url@,
    }
}

impl Package {
    /// The image to pull (see `image_url_of`).
    pub fn image_url(&self) -> (r: String)
        ensures
            r@ == image_url_of(*self),
    {
        match self {
            Package::GithubPublic { image } => {
                let mut s = "ghcr.io/".to_owned();
                s.append(image.as_str());
                s
            },
            Package::GithubPrivate { image, .. } => {
                let mut s = "ghcr.io/".to_owned();
                s.append(image.as_str());
                s
            },
            Package::DockerhubPublic { image } => image.clone(),
            Package::DockerhubPrivate { image, .. } => image.clone(),
            Package::RegistryPrivate { url, .. } => url.clone(),
            Package::RegistryPublic { url } => url.clone(),
        }
    }

    /// The user and secret to pull with, for private registries.
    pub fn credentials(&self) -> (r: Option<(String, String)>)
        ensures
            match self {
                Package::GithubPrivate { user, token, .. } => r matches Some((u, t)) && u@ == user@ && t@ == token@,
                Package::DockerhubPrivate { user, password, .. } => r matches Some((u, p)) && u@ == user@ && p@ == password@,
                Package::RegistryPrivate { user, password, .. } => r matches Some((u, p)) && u@ == user@ && p@ == password@,
                _ => r is None,
            },
    {
        match self {
            Package::GithubPublic { .. } => None,
            Package::GithubPrivate { user, token, .. } => Some((user.clone(), token.clone())),
            Package::DockerhubPublic { .. } => None,
            Package::DockerhubPrivate { user, password, .. } => Some((user.clone(), password.clone())),
            Package::RegistryPrivate { user, password, .. } => Some((user.clone(), password.clone())),
            Package::RegistryPublic { .. } => None,
        }
    }
}

/// What a worker is asked.
#[derive(Debug)]
pub enum WorkerRequest {
    Message { message: String },
}

/// Where a job's output goes.
#[derive(Debug)]
pub enum OutputConfig {
    /// A branch of a GitHub repository.
    GithubBranch { repo: String, branch: String, token: String, commit_message: Option<String> },
    /// An HTTP endpoint.
    Webhook { url: String, headers: Option<Vec<(String, String)>> },
}

/// Where a job is.
#[derive(Clone, Copy, Debug, PartialEq, Eq, Structural)]
pub enum JobStatus {
    Queued,
    Pulling,
    Running,
    ProcessingOutput,
    Completed,
    Failed,
}

/// The outcome of checking a package.
#[derive(Debug)]
pub struct VerifyResult {
    pub valid: bool,
    pub error: Option<ApiError>,
    pub image_id: Option<String>,
    pub size: Option<u64>,
}

/// An error a worker reports.
#[derive(Debug)]
pub struct WorkerError {
    pub code: String,
    pub details: Option<String>,
}

/// A file a worker produced.
#[derive(Debug)]
pub struct OutputFile {
    pub path: String,
    pub content: String,
    pub binary: bool,
}

/// The owner and name of `owner/repo`: exactly one `/`.
pub open spec fn repo_parts(repo: Seq<char>) -> Option<(Seq<char>, Seq<char>)> {
    match crate::fqn::first_index(repo, '/') {
        Some(i) => if crate::fqn::first_index(repo.skip(i + 1), '/') is None {
            Some((repo.take(i), repo.skip(i + 1)))
        } else {
            None
        },
        None => None,
    }
}

/// The owner and name of a GitHub repository written `owner/repo`.
pub fn parse_repo(repo: &str) -> (r: Result<(String, String), ExecutorError>)
    ensures
        match repo_parts(repo@) {
            Some((o, n)) => r matches Ok((a, b)) && a@ == o && b@ == n,
            None => r matches Err(ExecutorError::GitPushFailed(m)) && m@ == "Invalid repo format: "@ + repo@
                + ". Expected 'owner/repo'"@,
        },
{
    let c = chars_of(repo);
    let mut i: usize = 0;
    while i < c.len() && c[i] != '/'
        invariant
            i <= c@.len(),
            c@ == repo@,
            forall|j: int| 0 <= j < i ==> c@[j] != '/',
        decreases c.len() - i,
    {
        i = i + 1;
    }
    if i < c.len() {
        let rest = crate::text::slice_chars(&c, i + 1, c.len());
        let mut k: usize = 0;
        while k < rest.len() && rest[k] != '/'
            invariant
                k <= rest@.len(),
                forall|j: int| 0 <= j < k ==> rest@[j] != '/',
            decreases rest.len() - k,
        {
            k = k + 1;
        }
        proof {
            lemma_first_index_at(repo@, '/', i as int);
            assert(rest@ =~= repo@.skip(i + 1));
            if k < rest@.len() {
                lemma_first_index_at(rest@, '/', k as int);
            } else {
                lemma_no_index(rest@, '/');
            }
        }
        if k == rest.len() {
            let a = string_of(&crate::text::slice_chars(&c, 0, i));
            let b = string_of(&rest);
            assert(c@.subrange(0, i as int) =~= repo@.take(i as int));
            return Ok((a, b));
        }
    } else {
        proof {
            lemma_no_index(repo@, '/');
        }
    }
    let mut m = "Invalid repo format: ".to_owned();
    m.append(repo);
    m.append(". Expected 'owner/repo'");
    Err(ExecutorError::GitPushFailed(m))
}

proof fn lemma_first_index_at(s: Seq<char>, c: char, i: int)
    requires
        0 <= i < s.len(),
        s[i] == c,
        forall|j: int| 0 <= j < i ==> s[j] != c,
    ensures
        crate::fqn::first_index(s, c) == Some(i),
{
    let k = choose|k: int| 0 <= k < s.len() && s[k] == c && forall|j: int| 0 <= j < k ==> s[j] != c;
    if k < i {
    } else if k > i {
        assert(s[i] != c);
    }
}

proof fn lemma_no_index(s: Seq<char>, c: char)
    requires
        forall|j: int| 0 <= j < s.len() ==> s[j] != c,
    ensures
        crate::fqn::first_index(s, c) is None,
{
}

} // verus!
