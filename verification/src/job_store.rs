//! The executor's jobs: created, followed through their statuses, and forgotten once they
//! are old. Identifiers (UUIDs, as text) and times (microseconds since the Unix epoch) are
//! supplied by the caller.

use vstd::prelude::*;
use crate::defaults::{copy_json, json_view, Json, JsonView};
use crate::executor::{ApiError, ExecutorError, JobStatus, OutputConfig, Package, WorkerRequest};

verus! {

/// A job of the executor.
#[derive(Debug)]
pub struct Job {
    /// The job's UUID, as text.
    pub id: String,
    pub status: JobStatus,
    pub package: Package,
    pub request: WorkerRequest,
    pub output: OutputConfig,
    pub created_at: i64,
    pub started_at: Option<i64>,
    pub completed_at: Option<i64>,
    pub error: Option<ApiError>,
    pub result: Option<Json>,
    pub container_id: Option<String>,
}

/// What a job holds, as plain values (the result by its JSON form).
pub struct JobView {
    pub id: Seq<char>,
    pub status: JobStatus,
    pub package: Package,
    pub request: WorkerRequest,
    pub output: OutputView,
    pub created_at: i64,
    pub started_at: Option<i64>,
    pub completed_at: Option<i64>,
    pub error: Option<ApiError>,
    pub result: Option<JsonView>,
    pub container_id: Option<Seq<char>>,
}

/// The text of an optional string.
pub open spec fn opt_text(o: Option<String>) -> Option<Seq<char>> {
    match o {
        Some(s) => Some(s@),
        None => None,
    }
}

/// Where a job's output goes, as plain values.
pub enum OutputView {
    GithubBranch { repo: Seq<char>, branch: Seq<char>, token: Seq<char>, commit_message: Option<Seq<char>> },
    Webhook { url: Seq<char>, headers: Option<Seq<(String, String)>> },
}

/// Where a job's output goes.
pub open spec fn output_view(o: OutputConfig) -> OutputView {
    match o {
        OutputConfig::GithubBranch { repo, branch, token, commit_message } => OutputView::GithubBranch {
            repo: repo@,
            branch: branch@,
            token: token@,
            commit_message: opt_text(commit_message),
        },
        OutputConfig::Webhook { url, headers } => OutputView::Webhook {
            url: url@,
            headers: match headers {
                Some(h) => Some(h@),
                None => None,
            },
        },
    }
}

/// What a job holds.
pub open spec fn job_view(j: Job) -> JobView {
    JobView {
        id: j.id@,
        status: j.status,
        package: j.package,
        request: j.request,
        output: output_view(j.output),
        created_at: j.created_at,
        started_at: j.started_at,
        completed_at: j.completed_at,
        error: j.error,
        result: match j.result {
            Some(r) => Some(json_view(r)),
            None => None,
        },
        container_id: opt_text(j.container_id),
    }
}

fn copy_string(s: &String) -> (r: String)
    ensures
        r == *s,
{
    s.clone()
}

fn copy_opt(o: &Option<String>) -> (r: Option<String>)
    ensures
        r == *o,
{
    match o {
        Some(s) => Some(copy_string(s)),
        None => None,
    }
}

fn copy_package(p: &Package) -> (r: Package)
    ensures
        r == *p,
{
    match p {
        Package::GithubPublic { image } => Package::GithubPublic { image: copy_string(image) },
        Package::GithubPrivate { image, user, token } => Package::GithubPrivate {
            image: copy_string(image),
            user: copy_string(user),
            token: copy_string(token),
        },
        Package::DockerhubPublic { image } => Package::DockerhubPublic { image: copy_string(image) },
        Package::DockerhubPrivate { image, user, password } => Package::DockerhubPrivate {
            image: copy_string(image),
            user: copy_string(user),
            password: copy_string(password),
        },
        Package::RegistryPrivate { url, user, password } => Package::RegistryPrivate {
            url: copy_string(url),
            user: copy_string(user),
            password: copy_string(password),
        },
        Package::RegistryPublic { url } => Package::RegistryPublic { url: copy_string(url) },
    }
}

fn copy_request(r: &WorkerRequest) -> (c: WorkerRequest)
    ensures
        c == *r,
{
    match r {
        WorkerRequest::Message { message } => WorkerRequest::Message { message: copy_string(message) },
    }
}

fn copy_pairs(v: &Vec<(String, String)>) -> (r: Vec<(String, String)>)
    ensures
        r@ == v@,
{
    let mut r: Vec<(String, String)> = Vec::new();
    let mut i: usize = 0;
    while i < v.len()
        invariant
            i <= v@.len(),
            r@ == v@.take(i as int),
        decreases v@.len() - i,
    {
        r.push((copy_string(&v[i].0), copy_string(&v[i].1)));
        assert(r@ =~= v@.take(i + 1));
        i = i + 1;
    }
    assert(v@.take(v@.len() as int) =~= v@);
    r
}

fn copy_output(o: &OutputConfig) -> (r: OutputConfig)
    ensures
        output_view(r) == output_view(*o),
{
    match o {
        OutputConfig::GithubBranch { repo, branch, token, commit_message } => OutputConfig::GithubBranch {
            repo: copy_string(repo),
            branch: copy_string(branch),
            token: copy_string(token),
            commit_message: copy_opt(commit_message),
        },
        OutputConfig::Webhook { url, headers } => OutputConfig::Webhook {
            url: copy_string(url),
            headers: match headers {
                Some(h) => Some(copy_pairs(h)),
                None => None,
            },
        },
    }
}

fn copy_error(e: &ApiError) -> (r: ApiError)
    ensures
        r == *e,
{
    ApiError { code: e.code, details: copy_opt(&e.details) }
}

/// A copy of a job.
pub fn copy_job(j: &Job) -> (r: Job)
    ensures
        job_view(r) == job_view(*j),
{
    Job {
        id: copy_string(&j.id),
        status: j.status,
        package: copy_package(&j.package),
        request: copy_request(&j.request),
        output: copy_output(&j.output),
        created_at: j.created_at,
        started_at: j.started_at,
        completed_at: j.completed_at,
        error: match &j.error {
            Some(e) => Some(copy_error(e)),
            None => None,
        },
        result: match &j.result {
            Some(r) => Some(copy_json(r)),
            None => None,
        },
        container_id: copy_opt(&j.container_id),
    }
}

/// A job that has just been created: queued, at `now`.
pub open spec fn new_job_view(id: Seq<char>, package: Package, request: WorkerRequest, output: OutputConfig, now: i64) -> JobView {
    JobView {
        id,
        status: JobStatus::Queued,
        package,
        request,
        output: output_view(output),
        created_at: now,
        started_at: None,
        completed_at: None,
        error: None,
        result: None,
        container_id: None,
    }
}

/// A job after its status becomes `status` at `now`: running jobs record when they
/// started, completed and failed jobs when they ended.
pub open spec fn with_status(v: JobView, status: JobStatus, now: i64) -> JobView {
    JobView {
        status,
        started_at: if status == JobStatus::Running { Some(now) } else { v.started_at },
        completed_at: if status == JobStatus::Completed || status == JobStatus::Failed {
            Some(now)
        } else {
            v.completed_at
        },
        ..v
    }
}

/// A job after it failed with `error` at `now`.
pub open spec fn with_error(v: JobView, error: ApiError, now: i64) -> JobView {
    JobView { error: Some(error), status: JobStatus::Failed, completed_at: Some(now), ..v }
}

/// Whether a job is kept by a cleanup with cutoff `cutoff`: it has not ended, or it
/// ended after the cutoff.
pub open spec fn kept(v: JobView, cutoff: int) -> bool {
    match v.completed_at {
        Some(t) => t > cutoff,
        None => true,
    }
}

#[verifier::external_type_specification]
#[verifier::external_body]
#[verifier::reject_recursive_types(K)]
#[verifier::reject_recursive_types(V)]
#[verifier::reject_recursive_types(S)]
pub struct ExDashMap<K, V, S>(dashmap::DashMap<K, V, S>);

/// A table of jobs, by identifier.
pub type JobTable = dashmap::DashMap<String, Job>;

/// An identifier with its job.
pub type JobEntry = (String, Job);

/// What a job table holds: each identifier with its job.
pub uninterp spec fn stored_jobs(m: dashmap::DashMap<String, Job>) -> Map<Seq<char>, JobView>;

/// No jobs at all.
pub open spec fn no_jobs() -> Map<Seq<char>, JobView> {
    Map::empty()
}

/// The identifiers of a list of entries, in order.
pub open spec fn entry_keys(s: Seq<JobEntry>) -> Seq<Seq<char>> {
    s.map_values(|e: JobEntry| e.0@)
}

/// An empty table (`DashMap::new`).
#[verifier::external_body]
fn jobs_new() -> (r: JobTable)
    ensures
        stored_jobs(r) == no_jobs(),
{
    dashmap::DashMap::new()
}

/// `DashMap::insert`: afterwards `key` holds `job`, in place of what it held before;
/// the other entries stay.
#[verifier::external_body]
fn jobs_insert(m: &mut dashmap::DashMap<String, Job>, key: String, job: Job)
    ensures
        stored_jobs(*final(m)) == stored_jobs(*old(m)).insert(key@, job_view(job)),
{
    m.insert(key, job);
}

/// `DashMap::get`: a copy of the job under `key`, if there is one.
#[verifier::external_body]
fn jobs_get(m: &dashmap::DashMap<String, Job>, key: &str) -> (r: Option<Job>)
    ensures
        match r {
            Some(j) => stored_jobs(*m).contains_key(key@) && job_view(j) == stored_jobs(*m)[key@],
            None => !stored_jobs(*m).contains_key(key@),
        },
{
    m.get(key).map(|e| copy_job(e.value()))
}

/// An entry of the table, as an identifier and a copy of its job.
fn entry_of(key: &String, job: &Job) -> (r: JobEntry)
    ensures
        r.0@ == key@,
        job_view(r.1) == job_view(*job),
{
    (copy_string(key), copy_job(job))
}

/// `DashMap::iter`: every entry, each once, in the order the table is walked.
#[verifier::external_body]
fn jobs_entries(m: &JobTable) -> (r: Vec<JobEntry>)
    ensures
        r@.len() == stored_jobs(*m).len(),
        entry_keys(r@).no_duplicates(),
        forall|i: int| 0 <= i < r@.len() ==> stored_jobs(*m).contains_key((#[trigger] r@[i]).0@)
            && stored_jobs(*m)[r@[i].0@] == job_view(r@[i].1),
        forall|k: Seq<char>| #[trigger] stored_jobs(*m).contains_key(k) ==> exists|i: int| 0 <= i < r@.len() && (#[trigger] r@[i]).0@ == k,
{
    m.iter().map(|e| entry_of(e.key(), e.value())).collect()
}

/// Whether a cleanup with cutoff `cutoff` keeps `job` (see `kept`).
fn job_kept(job: &Job, cutoff: i64) -> (r: bool)
    ensures
        r == kept(job_view(*job), cutoff as int),
{
    match job.completed_at {
        Some(t) => t > cutoff,
        None => true,
    }
}

/// `DashMap::retain`: keeps the entries whose job `job_kept` keeps, unchanged, and
/// drops the others.
#[verifier::external_body]
fn jobs_retain(m: &mut dashmap::DashMap<String, Job>, cutoff: i64)
    ensures
        stored_jobs(*final(m)) == stored_jobs(*old(m)).restrict(
            stored_jobs(*old(m)).dom().filter(|k: Seq<char>| kept(stored_jobs(*old(m))[k], cutoff as int)),
        ),
{
    m.retain(|_, job| job_kept(job, cutoff));
}

/// The jobs of the executor, by identifier.
pub struct JobStore {
    jobs: dashmap::DashMap<String, Job>,
}

impl JobStore {
    /// Each job is held under its own identifier.
    pub open spec fn wf(&self) -> bool {
        forall|k: Seq<char>| #[trigger] self.view().contains_key(k) ==> self.view()[k].id == k
    }

    /// The jobs, by identifier.
    pub closed spec fn view(&self) -> Map<Seq<char>, JobView> {
        stored_jobs(self.jobs)
    }

    /// No jobs.
    pub fn new() -> (r: Self)
        ensures
            r.wf(),
            r.view() == Map::<Seq<char>, JobView>::empty(),
    {
        JobStore { jobs: jobs_new() }
    }

    /// Records a new queued job with identifier `id`, created at `now`, and gives it back.
    pub fn create_job(&mut self, package: Package, request: WorkerRequest, output: OutputConfig, id: &str, now: i64) -> (r: Job)
        requires
            old(self).wf(),
        ensures
            final(self).wf(),
            job_view(r) == new_job_view(id@, package, request, output, now),
            final(self).view() == old(self).view().insert(id@, job_view(r)),
    {
        let job = Job {
            id: id.to_owned(),
            status: JobStatus::Queued,
            package,
            request,
            output,
            created_at: now,
            started_at: None,
            completed_at: None,
            error: None,
            result: None,
            container_id: None,
        };
        let copy = copy_job(&job);
        jobs_insert(&mut self.jobs, id.to_owned(), job);
        copy
    }

    /// The job `id`, or `JobNotFound`.
    pub fn get_job(&self, id: &str) -> (r: Result<Job, ExecutorError>)
        ensures
            match r {
                Ok(j) => self.view().contains_key(id@) && job_view(j) == self.view()[id@],
                Err(e) => !self.view().contains_key(id@) && (e matches ExecutorError::JobNotFound(m) && m@ == id@),
            },
    {
        match jobs_get(&self.jobs, id) {
            Some(j) => Ok(j),
            None => Err(ExecutorError::JobNotFound(id.to_owned())),
        }
    }

    /// Sets the status of job `id` at `now` (see `with_status`), or `JobNotFound`.
    pub fn update_status(&mut self, id: &str, status: JobStatus, now: i64) -> (r: Result<(), ExecutorError>)
        requires
            old(self).wf(),
        ensures
            final(self).wf(),
            match r {
                Ok(()) => old(self).view().contains_key(id@) && final(self).view() == old(self).view().insert(
                    id@,
                    with_status(old(self).view()[id@], status, now),
                ),
                Err(e) => !old(self).view().contains_key(id@) && final(self).view() == old(self).view()
                    && (e matches ExecutorError::JobNotFound(m) && m@ == id@),
            },
    {
        match jobs_get(&self.jobs, id) {
            Some(mut job) => {
                job.status = status;
                match status {
                    JobStatus::Running => {
                        job.started_at = Some(now);
                    },
                    JobStatus::Completed | JobStatus::Failed => {
                        job.completed_at = Some(now);
                    },
                    _ => {},
                }
                jobs_insert(&mut self.jobs, id.to_owned(), job);
                Ok(())
            },
            None => Err(ExecutorError::JobNotFound(id.to_owned())),
        }
    }

    /// Records the container of job `id`, or `JobNotFound`.
    pub fn set_container_id(&mut self, id: &str, container_id: String) -> (r: Result<(), ExecutorError>)
        requires
            old(self).wf(),
        ensures
            final(self).wf(),
            match r {
                Ok(()) => old(self).view().contains_key(id@) && final(self).view() == old(self).view().insert(
                    id@,
                    JobView { container_id: Some(container_id@), ..old(self).view()[id@] },
                ),
                Err(e) => !old(self).view().contains_key(id@) && final(self).view() == old(self).view()
                    && (e matches ExecutorError::JobNotFound(m) && m@ == id@),
            },
    {
        match jobs_get(&self.jobs, id) {
            Some(mut job) => {
                job.container_id = Some(container_id);
                jobs_insert(&mut self.jobs, id.to_owned(), job);
                Ok(())
            },
            None => Err(ExecutorError::JobNotFound(id.to_owned())),
        }
    }

    /// Records the result of job `id`, or `JobNotFound`.
    pub fn set_result(&mut self, id: &str, result: Json) -> (r: Result<(), ExecutorError>)
        requires
            old(self).wf(),
        ensures
            final(self).wf(),
            match r {
                Ok(()) => old(self).view().contains_key(id@) && final(self).view() == old(self).view().insert(
                    id@,
                    JobView { result: Some(json_view(result)), ..old(self).view()[id@] },
                ),
                Err(e) => !old(self).view().contains_key(id@) && final(self).view() == old(self).view()
                    && (e matches ExecutorError::JobNotFound(m) && m@ == id@),
            },
    {
        match jobs_get(&self.jobs, id) {
            Some(mut job) => {
                job.result = Some(result);
                jobs_insert(&mut self.jobs, id.to_owned(), job);
                Ok(())
            },
            None => Err(ExecutorError::JobNotFound(id.to_owned())),
        }
    }

    /// Records that job `id` failed with `error` at `now`, or `JobNotFound`.
    pub fn set_error(&mut self, id: &str, error: ApiError, now: i64) -> (r: Result<(), ExecutorError>)
        requires
            old(self).wf(),
        ensures
            final(self).wf(),
            match r {
                Ok(()) => old(self).view().contains_key(id@) && final(self).view() == old(self).view().insert(
                    id@,
                    with_error(old(self).view()[id@], error, now),
                ),
                Err(e) => !old(self).view().contains_key(id@) && final(self).view() == old(self).view()
                    && (e matches ExecutorError::JobNotFound(m) && m@ == id@),
            },
    {
        match jobs_get(&self.jobs, id) {
            Some(mut job) => {
                job.error = Some(error);
                job.status = JobStatus::Failed;
                job.completed_at = Some(now);
                jobs_insert(&mut self.jobs, id.to_owned(), job);
                Ok(())
            },
            None => Err(ExecutorError::JobNotFound(id.to_owned())),
        }
    }

    /// Every job, each once.
    pub fn list_jobs(&self) -> (r: Vec<Job>)
        requires
            self.wf(),
        ensures
            r@.len() == self.view().len(),
            forall|i: int| 0 <= i < r@.len() ==> self.view().contains_key(#[trigger] r@[i].id@) && self.view()[r@[i].id@] == job_view(r@[i]),
            forall|k: Seq<char>| self.view().contains_key(k) ==> exists|i: int| 0 <= i < r@.len() && #[trigger] r@[i].id@ == k,
    {
        let entries = jobs_entries(&self.jobs);
        let mut r: Vec<Job> = Vec::new();
        let mut i: usize = 0;
        while i < entries.len()
            invariant
                i <= entries@.len(),
                r@.len() == i,
                forall|q: int| 0 <= q < i ==> job_view(#[trigger] r@[q]) == job_view(entries@[q].1),
            decreases entries@.len() - i,
        {
            r.push(copy_job(&entries[i].1));
            i = i + 1;
        }
        proof {
            assert forall|q: int| 0 <= q < r@.len() implies self.view().contains_key(#[trigger] r@[q].id@) && self.view()[r@[q].id@] == job_view(r@[q]) by {
                let k = entries@[q].0@;
                assert(self.view().contains_key(k));
                assert(self.view()[k].id == k);
                assert(job_view(r@[q]).id == r@[q].id@);
            }
            assert forall|k: Seq<char>| self.view().contains_key(k) implies exists|q: int| 0 <= q < r@.len() && #[trigger] r@[q].id@ == k by {
                let q = choose|q: int| 0 <= q < entries@.len() && (#[trigger] entries@[q]).0@ == k;
                assert(job_view(r@[q]).id == r@[q].id@);
                assert(self.view()[k].id == k);
            }
        }
        r
    }

    /// Forgets the jobs that ended `max_age_hours` hours or longer before `now`; jobs
    /// that have not ended are kept.
    pub fn cleanup_old_jobs(&mut self, max_age_hours: i64, now: i64)
        requires
            old(self).wf(),
            i64::MIN <= now - max_age_hours * 3_600_000_000 <= i64::MAX,
            i64::MIN <= max_age_hours * 3_600_000_000 <= i64::MAX,
        ensures
            final(self).wf(),
            forall|k: Seq<char>| #[trigger] final(self).view().contains_key(k) <==> (old(self).view().contains_key(k)
                && kept(old(self).view()[k], now - max_age_hours * 3_600_000_000)),
            forall|k: Seq<char>| #[trigger] final(self).view().contains_key(k) ==> final(self).view()[k] == old(self).view()[k],
    {
        let span: i64 = max_age_hours * 3_600_000_000;
        let cut: i64 = now - span;
        jobs_retain(&mut self.jobs, cut);
    }
}

/// Reading after writing: a job created under `id` is then found under `id`, queued,
/// with what it was created with; a later status change is then seen, while the job's
/// identifier, package and creation time stay; the jobs under other identifiers are
/// untouched by both.
pub proof fn lemma_job_read_after_write(
    s0: JobStore,
    s1: JobStore,
    s2: JobStore,
    id: Seq<char>,
    package: Package,
    request: WorkerRequest,
    output: OutputConfig,
    now: i64,
    status: JobStatus,
    later: i64,
    other: Seq<char>,
)
    requires
        s1.view() == s0.view().insert(id, new_job_view(id, package, request, output, now)),
        s2.view() == s1.view().insert(id, with_status(s1.view()[id], status, later)),
    ensures
        s1.view().contains_key(id),
        s1.view()[id] == new_job_view(id, package, request, output, now),
        s1.view()[id].status == JobStatus::Queued,
        s2.view().contains_key(id),
        s2.view()[id].status == status,
        s2.view()[id].id == id,
        s2.view()[id].package == package,
        s2.view()[id].created_at == now,
        other != id ==> s2.view().contains_key(other) == s0.view().contains_key(other),
        other != id && s0.view().contains_key(other) ==> s2.view()[other] == s0.view()[other],
{
}

} // verus!
