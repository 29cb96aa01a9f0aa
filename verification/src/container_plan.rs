//! How the executor sets up a worker container: its name, directories, mounts, limits and
//! environment; the architecture and command read from its image; and where the worker
//! leaves its response.

use vstd::prelude::*;
use crate::executor::{image_url_of, ContainerArch, Package};
use crate::flags::{join_path, joined};
use crate::proxy_middleware::{join_strings, join_with};
use crate::settings::string_views;
use crate::text::str_eq;

verus! {

/// Where the worker binary is mounted in the container.
pub const CONTAINER_WORKER_BIN: &'static str = "/usr/local/bin/adi-worker";

/// Where the request is mounted in the container.
pub const CONTAINER_INPUT_DIR: &'static str = "/adi/input";

/// Where the worker writes its response in the container.
pub const CONTAINER_OUTPUT_DIR: &'static str = "/adi/output";

/// The file the worker writes its response to.
pub const RESPONSE_FILENAME: &'static str = "response.json";

/// A bind mount of a host path into the container.
#[derive(Clone, Debug)]
pub struct MountPlan {
    pub target: String,
    pub source: String,
    pub read_only: bool,
}

/// How a worker container is set up.
#[derive(Clone, Debug)]
pub struct ContainerPlan {
    pub name: String,
    pub image: String,
    /// The job's directory on the host, and its input and output directories.
    pub host_base_dir: String,
    pub host_input_dir: String,
    pub host_output_dir: String,
    pub mounts: Vec<MountPlan>,
    pub entrypoint: Vec<String>,
    pub env: Vec<String>,
    /// Memory limit in bytes.
    pub memory: i64,
    pub cpu_period: i64,
    pub cpu_quota: i64,
}

/// The job's directory under the host's temporary directory: `adi-executor-<job>`.
pub open spec fn job_dir(temp_dir: Seq<char>, job_id: Seq<char>) -> Seq<char> {
    joined(temp_dir, "adi-executor-"@ + job_id)
}

fn mount(target: &str, source: &str, read_only: bool) -> (r: MountPlan)
    ensures
        r.target@ == target@,
        r.source@ == source@,
        r.read_only == read_only,
{
    MountPlan { target: target.to_owned(), source: source.to_owned(), read_only }
}

/// The setup of the worker container for job `job_id` running `package`'s image with the
/// worker binary at `worker_binary`: named `adi-executor-<job>`, with 512 MiB of memory
/// and half a CPU; the worker binary and the job's input directory mounted read-only and
/// its output directory writable; the worker as entry point; the job and the image's
/// original command in the environment.
pub fn container_plan(package: &Package, job_id: &str, worker_binary: &str, temp_dir: &str, original_cmd: &str) -> (r: ContainerPlan)
    ensures
        r.name@ == "adi-executor-"@ + job_id@,
        r.image@ == image_url_of(*package),
        r.host_base_dir@ == job_dir(temp_dir@, job_id@),
        r.host_input_dir@ == joined(job_dir(temp_dir@, job_id@), "input"@),
        r.host_output_dir@ == joined(job_dir(temp_dir@, job_id@), "output"@),
        r.mounts@.len() == 3,
        r.mounts@[0].target@ == CONTAINER_WORKER_BIN@ && r.mounts@[0].source@ == worker_binary@ && r.mounts@[0].read_only,
        r.mounts@[1].target@ == CONTAINER_INPUT_DIR@ && r.mounts@[1].source@ == r.host_input_dir@ && r.mounts@[1].read_only,
        r.mounts@[2].target@ == CONTAINER_OUTPUT_DIR@ && r.mounts@[2].source@ == r.host_output_dir@ && !r.mounts@[2].read_only,
        string_views(r.entrypoint@) == seq![CONTAINER_WORKER_BIN@],
        string_views(r.env@) == seq!["JOB_ID="@ + job_id@, "ORIGINAL_CMD="@ + original_cmd@],
        r.memory == 512 * 1024 * 1024,
        r.cpu_period == 100000,
        r.cpu_quota == 50000,
{
    let mut name = "adi-executor-".to_owned();
    name.append(job_id);
    let base = join_path(temp_dir, name.as_str());
    let input = join_path(base.as_str(), "input");
    let output = join_path(base.as_str(), "output");
    let mut mounts: Vec<MountPlan> = Vec::new();
    mounts.push(mount(CONTAINER_WORKER_BIN, worker_binary, true));
    mounts.push(mount(CONTAINER_INPUT_DIR, input.as_str(), true));
    mounts.push(mount(CONTAINER_OUTPUT_DIR, output.as_str(), false));
    let mut entrypoint: Vec<String> = Vec::new();
    entrypoint.push(CONTAINER_WORKER_BIN.to_owned());
    let mut job_env = "JOB_ID=".to_owned();
    job_env.append(job_id);
    let mut cmd_env = "ORIGINAL_CMD=".to_owned();
    cmd_env.append(original_cmd);
    let mut env: Vec<String> = Vec::new();
    env.push(job_env);
    env.push(cmd_env);
    assert(string_views(entrypoint@) =~= seq![CONTAINER_WORKER_BIN@]);
    assert(string_views(env@) =~= seq!["JOB_ID="@ + job_id@, "ORIGINAL_CMD="@ + original_cmd@]);
    ContainerPlan {
        name,
        image: package.image_url(),
        host_base_dir: base,
        host_input_dir: input,
        host_output_dir: output,
        mounts,
        entrypoint,
        env,
        memory: 512 * 1024 * 1024,
        cpu_period: 100000,
        cpu_quota: 50000,
    }
}

/// The architecture an image reports: `arm64` and `aarch64` are ARM; anything else,
/// and an image that reports none, is x86-64.
pub open spec fn arch_named(a: Option<Seq<char>>) -> ContainerArch {
    match a {
        Some(s) => if s == "arm64"@ || s == "aarch64"@ { ContainerArch::Arm64 } else { ContainerArch::Amd64 },
        None => ContainerArch::Amd64,
    }
}

/// The architecture an image reports (see `arch_named`).
pub fn image_arch(architecture: Option<&str>) -> (r: ContainerArch)
    ensures
        r == arch_named(match architecture {
            Some(a) => Some(a@),
            None => None,
        }),
{
    proof {
        reveal_strlit("arm64");
        reveal_strlit("aarch64");
    }
    match architecture {
        Some(a) => if str_eq(a, "arm64") || str_eq(a, "aarch64") {
            ContainerArch::Arm64
        } else {
            ContainerArch::Amd64
        },
        None => ContainerArch::Amd64,
    }
}

/// The command an image runs: its `Cmd` joined with spaces when it has one, else its
/// `Entrypoint`; nothing when it has neither.
pub open spec fn image_command(cmd: Option<Seq<Seq<char>>>, entrypoint: Option<Seq<Seq<char>>>) -> Option<Seq<char>> {
    match cmd {
        Some(c) if c.len() > 0 => Some(join_with(c, " "@)),
        _ => match entrypoint {
            Some(e) if e.len() > 0 => Some(join_with(e, " "@)),
            _ => None,
        },
    }
}

/// The command an image runs (see `image_command`).
pub fn original_command(cmd: Option<&Vec<String>>, entrypoint: Option<&Vec<String>>) -> (r: Option<String>)
    ensures
        match r {
            Some(s) => image_command(match cmd {
                Some(c) => Some(string_views(c@)),
                None => None,
            }, match entrypoint {
                Some(e) => Some(string_views(e@)),
                None => None,
            }) == Some(s@),
            None => image_command(match cmd {
                Some(c) => Some(string_views(c@)),
                None => None,
            }, match entrypoint {
                Some(e) => Some(string_views(e@)),
                None => None,
            }) is None,
        },
{
    match cmd {
        Some(c) => {
            if c.len() > 0 {
                return Some(join_strings(c, " "));
            }
        },
        None => {},
    }
    match entrypoint {
        Some(e) => {
            if e.len() > 0 {
                return Some(join_strings(e, " "));
            }
        },
        None => {},
    }
    None
}

/// Where the worker's response is on the host: `<output dir>/response.json`.
pub fn response_path(output_dir: &str) -> (r: String)
    ensures
        r@ == joined(output_dir@, RESPONSE_FILENAME@),
{
    join_path(output_dir, RESPONSE_FILENAME)
}

} // verus!
