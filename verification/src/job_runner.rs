//! Running a job: pull the image, create and start the worker container, wait for it,
//! read its response, clean up, hand the output files on, and record the outcome. The
//! container work happens outside; this module decides, from each outcome, what is
//! recorded in the job store and what is done next.

use vstd::prelude::*;
use crate::defaults::{copy_json, json_view, Json, JsonView};
use crate::executor::{ApiError, ContainerInfo, ErrorCode, JobStatus, OutputFile, WorkerError};
use crate::job_store::{kept, with_error, with_status, JobStore, JobView};

verus! {

/// What a worker wrote back.
#[derive(Debug)]
pub struct WorkerResponse {
    pub success: bool,
    pub data: Option<Json>,
    pub error: Option<WorkerError>,
    pub files: Vec<OutputFile>,
}

/// Where a run is.
#[derive(Clone, Copy, Debug, PartialEq, Eq, Structural)]
pub enum JobPhase {
    Pulling,
    Creating,
    Starting,
    Waiting,
    Reading,
    Outputting,
    Finished,
}

/// The outcome of the last thing done.
#[derive(Debug)]
pub enum JobEvent {
    Pulled(Result<(), ApiError>),
    Created(Result<ContainerInfo, ApiError>),
    Started(Result<(), ApiError>),
    Exited(Result<i64, ApiError>),
    Responded(Result<WorkerResponse, ApiError>),
    OutputHandled(Result<(), ApiError>),
}

/// What to do next. `cleanup` names a container to remove, with the job's directory,
/// before anything else.
#[derive(Debug)]
pub enum JobAction {
    PullImage,
    CreateContainer,
    StartContainer { container_id: String },
    WaitContainer { container_id: String },
    ReadResponse { output_dir: String },
    /// Hand the response's files to the job's output.
    HandleOutput { cleanup: Option<String> },
    /// The run is over.
    Stop { cleanup: Option<String> },
}

/// A job being run.
#[derive(Debug)]
pub struct JobRun {
    pub job_id: String,
    pub phase: JobPhase,
    pub container: Option<ContainerInfo>,
    /// The worker's response, once read.
    pub response: Option<WorkerResponse>,
}

/// The jobs with `id`'s status set at `now`, if the job exists.
pub open spec fn status_set(m: Map<Seq<char>, JobView>, id: Seq<char>, s: JobStatus, now: i64) -> Map<Seq<char>, JobView> {
    if m.contains_key(id) { m.insert(id, with_status(m[id], s, now)) } else { m }
}

/// The jobs with `id` failed with `e` at `now`, if the job exists.
pub open spec fn error_set(m: Map<Seq<char>, JobView>, id: Seq<char>, e: ApiError, now: i64) -> Map<Seq<char>, JobView> {
    if m.contains_key(id) { m.insert(id, with_error(m[id], e, now)) } else { m }
}

/// The jobs with `id`'s container recorded, if the job exists.
pub open spec fn container_set(m: Map<Seq<char>, JobView>, id: Seq<char>, c: Seq<char>) -> Map<Seq<char>, JobView> {
    if m.contains_key(id) { m.insert(id, JobView { container_id: Some(c), ..m[id] }) } else { m }
}

/// The jobs with `id`'s result recorded, if there is a result and the job exists.
pub open spec fn result_set(m: Map<Seq<char>, JobView>, id: Seq<char>, data: Option<JsonView>) -> Map<Seq<char>, JobView> {
    match data {
        Some(d) => if m.contains_key(id) { m.insert(id, JobView { result: Some(d), ..m[id] }) } else { m },
        None => m,
    }
}

/// The details of a worker's failure: `<code>: <details>`, or `unknown error`.
pub open spec fn failure_details(e: Option<WorkerError>) -> Seq<char> {
    match e {
        Some(w) => w.code@ + ": "@ + match w.details {
            Some(d) => d@,
            None => Seq::empty(),
        },
        None => "unknown error"@,
    }
}

/// The jobs once a successful run has recorded its result and completion.
pub open spec fn completed(m: Map<Seq<char>, JobView>, id: Seq<char>, data: Option<JsonView>, now: i64) -> Map<Seq<char>, JobView> {
    status_set(result_set(m, id, data), id, JobStatus::Completed, now)
}

/// The JSON form of an optional result.
pub open spec fn data_view(d: Option<Json>) -> Option<JsonView> {
    match d {
        Some(j) => Some(json_view(j)),
        None => None,
    }
}

fn copy_container(c: &ContainerInfo) -> (r: ContainerInfo)
    ensures
        r == *c,
{
    ContainerInfo { id: c.id.clone(), name: c.name.clone(), output_dir: c.output_dir.clone() }
}

fn details_of(e: &Option<WorkerError>) -> (r: String)
    ensures
        r@ == failure_details(*e),
{
    match e {
        Some(w) => {
            let mut s = w.code.clone();
            s.append(": ");
            match &w.details {
                Some(d) => s.append(d.as_str()),
                None => {},
            }
            s
        },
        None => "unknown error".to_owned(),
    }
}

impl JobRun {
    /// From its start until it has read the worker's response, a run holds the job's
    /// container.
    pub open spec fn wf(&self) -> bool {
        (self.phase == JobPhase::Starting || self.phase == JobPhase::Waiting || self.phase == JobPhase::Reading)
            ==> self.container is Some
    }

    /// Starts running job `id`: it is pulling its image.
    pub fn start(store: &mut JobStore, job_id: &str, now: i64) -> (r: (JobRun, JobAction))
        requires
            old(store).wf(),
        ensures
            final(store).wf(),
            final(store).view() == status_set(old(store).view(), job_id@, JobStatus::Pulling, now),
            r.0.job_id@ == job_id@,
            r.0.phase == JobPhase::Pulling,
            r.0.wf(),
            r.0.container is None,
            r.0.response is None,
            r.1 is PullImage,
    {
        let _ = store.update_status(job_id, JobStatus::Pulling, now);
        (JobRun { job_id: job_id.to_owned(), phase: JobPhase::Pulling, container: None, response: None }, JobAction::PullImage)
    }

    /// Records a failure with `error` and ends the run, cleaning up the container if
    /// there is one.
    fn fail(&mut self, store: &mut JobStore, error: ApiError, now: i64) -> (r: JobAction)
        requires
            old(store).wf(),
        ensures
            final(store).wf(),
            final(store).view() == error_set(old(store).view(), old(self).job_id@, error, now),
            final(self).phase == JobPhase::Finished,
            final(self).job_id == old(self).job_id,
            final(self).container == old(self).container,
            final(self).response == old(self).response,
            r == (JobAction::Stop {
                cleanup: match old(self).container {
                    Some(c) => Some(c.id),
                    None => None,
                },
            }),
    {
        let _ = store.set_error(self.job_id.as_str(), error, now);
        self.phase = JobPhase::Finished;
        JobAction::Stop {
            cleanup: match &self.container {
                Some(c) => Some(c.id.clone()),
                None => None,
            },
        }
    }

    /// The next step after `event`: a failure is recorded and ends the run (removing the
    /// container once one started); each success moves the job on. After the response is
    /// read the container is removed; a response reporting failure records it as an
    /// execution failure; otherwise the job is processing its output, which is handed on
    /// when there are files, and then the result (if any) is recorded and the job is
    /// completed. An event that does not belong to the current phase changes nothing.
    pub fn step(&mut self, store: &mut JobStore, event: JobEvent, now: i64) -> (r: JobAction)
        requires
            old(store).wf(),
        ensures
            final(store).wf(),
            final(self).job_id == old(self).job_id,
            old(self).wf() ==> final(self).wf(),
            final(self).container == match (old(self).phase, event) {
                (JobPhase::Creating, JobEvent::Created(Ok(c))) => Some(c),
                (JobPhase::Pulling, JobEvent::Pulled(Err(_))) => None,
                (JobPhase::Creating, JobEvent::Created(Err(_))) => None,
                (JobPhase::Outputting, JobEvent::OutputHandled(Err(_))) => None,
                _ => old(self).container,
            },
            final(self).response == match (old(self).phase, event) {
                (JobPhase::Reading, JobEvent::Responded(Ok(resp))) => if resp.success && resp.files@.len() > 0 {
                    Some(resp)
                } else {
                    old(self).response
                },
                _ => old(self).response,
            },
            ({
                let m = old(store).view();
                let id = old(self).job_id@;
                match (old(self).phase, event) {
                    (JobPhase::Pulling, JobEvent::Pulled(Ok(()))) => final(self).phase == JobPhase::Creating
                        && final(store).view() == status_set(m, id, JobStatus::Running, now) && r is CreateContainer,
                    (JobPhase::Creating, JobEvent::Created(Ok(c))) => final(self).phase == JobPhase::Starting
                        && final(self).container == Some(c) && final(store).view() == container_set(m, id, c.id@)
                        && r == (JobAction::StartContainer { container_id: c.id }),
                    (JobPhase::Starting, JobEvent::Started(Ok(()))) => final(self).phase == JobPhase::Waiting
                        && final(store).view() == m && (old(self).container matches Some(c) ==> r == (JobAction::WaitContainer { container_id: c.id })),
                    (JobPhase::Waiting, JobEvent::Exited(Ok(_))) => final(self).phase == JobPhase::Reading
                        && final(store).view() == m && (old(self).container matches Some(c) ==> r == (JobAction::ReadResponse { output_dir: c.output_dir })),
                    (JobPhase::Reading, JobEvent::Responded(Ok(resp))) => {
                        let cleanup = match old(self).container {
                            Some(c) => Some(c.id),
                            None => None,
                        };
                        if !resp.success {
                            final(self).phase == JobPhase::Finished && (exists|d: String| d@ == failure_details(resp.error)
                                && final(store).view() == error_set(m, id, ApiError { code: ErrorCode::ExecutionFailed, details: Some(d) }, now))
                                && r == (JobAction::Stop { cleanup })
                        } else if resp.files@.len() > 0 {
                            final(self).phase == JobPhase::Outputting && final(store).view() == status_set(m, id, JobStatus::ProcessingOutput, now)
                                && r == (JobAction::HandleOutput { cleanup }) && final(self).response == Some(resp)
                        } else {
                            final(self).phase == JobPhase::Finished && final(store).view() == completed(
                                status_set(m, id, JobStatus::ProcessingOutput, now),
                                id,
                                data_view(resp.data),
                                now,
                            ) && r == (JobAction::Stop { cleanup })
                        }
                    },
                    (JobPhase::Outputting, JobEvent::OutputHandled(Ok(()))) => final(self).phase == JobPhase::Finished
                        && final(store).view() == completed(m, id, match old(self).response {
                            Some(resp) => data_view(resp.data),
                            None => None,
                        }, now) && r == (JobAction::Stop { cleanup: None }),
                    (JobPhase::Pulling, JobEvent::Pulled(Err(e))) => final(self).phase == JobPhase::Finished
                        && final(store).view() == error_set(m, id, e, now) && r == (JobAction::Stop { cleanup: None }),
                    (JobPhase::Creating, JobEvent::Created(Err(e))) => final(self).phase == JobPhase::Finished
                        && final(store).view() == error_set(m, id, e, now) && r == (JobAction::Stop { cleanup: None }),
                    (JobPhase::Starting, JobEvent::Started(Err(e))) | (JobPhase::Waiting, JobEvent::Exited(Err(e)))
                    | (JobPhase::Reading, JobEvent::Responded(Err(e))) => final(self).phase == JobPhase::Finished
                        && final(store).view() == error_set(m, id, e, now) && r == (JobAction::Stop {
                        cleanup: match old(self).container {
                            Some(c) => Some(c.id),
                            None => None,
                        },
                    }),
                    (JobPhase::Outputting, JobEvent::OutputHandled(Err(e))) => final(self).phase == JobPhase::Finished
                        && final(store).view() == error_set(m, id, e, now) && r == (JobAction::Stop { cleanup: None }),
                    _ => final(self).phase == old(self).phase && final(store).view() == m,
                }
            }),
    {
        match (self.phase, event) {
            (JobPhase::Pulling, JobEvent::Pulled(Ok(()))) => {
                let _ = store.update_status(self.job_id.as_str(), JobStatus::Running, now);
                self.phase = JobPhase::Creating;
                JobAction::CreateContainer
            },
            (JobPhase::Pulling, JobEvent::Pulled(Err(e))) => {
                self.container = None;
                self.fail(store, e, now)
            },
            (JobPhase::Creating, JobEvent::Created(Ok(c))) => {
                let _ = store.set_container_id(self.job_id.as_str(), c.id.clone());
                let id = c.id.clone();
                self.container = Some(c);
                self.phase = JobPhase::Starting;
                JobAction::StartContainer { container_id: id }
            },
            (JobPhase::Creating, JobEvent::Created(Err(e))) => {
                self.container = None;
                self.fail(store, e, now)
            },
            (JobPhase::Starting, JobEvent::Started(Ok(()))) => {
                self.phase = JobPhase::Waiting;
                match &self.container {
                    Some(c) => JobAction::WaitContainer { container_id: c.id.clone() },
                    None => JobAction::Stop { cleanup: None },
                }
            },
            (JobPhase::Waiting, JobEvent::Exited(Ok(_))) => {
                self.phase = JobPhase::Reading;
                match &self.container {
                    Some(c) => JobAction::ReadResponse { output_dir: c.output_dir.clone() },
                    None => JobAction::Stop { cleanup: None },
                }
            },
            (JobPhase::Starting, JobEvent::Started(Err(e))) => self.fail(store, e, now),
            (JobPhase::Waiting, JobEvent::Exited(Err(e))) => self.fail(store, e, now),
            (JobPhase::Reading, JobEvent::Responded(Err(e))) => self.fail(store, e, now),
            (JobPhase::Reading, JobEvent::Responded(Ok(resp))) => {
                let cleanup = match &self.container {
                    Some(c) => Some(c.id.clone()),
                    None => None,
                };
                if !resp.success {
                    let details = details_of(&resp.error);
                    let _ = store.set_error(self.job_id.as_str(), ApiError::with_details(ErrorCode::ExecutionFailed, details.as_str()), now);
                    self.phase = JobPhase::Finished;
                    JobAction::Stop { cleanup }
                } else {
                    let _ = store.update_status(self.job_id.as_str(), JobStatus::ProcessingOutput, now);
                    if resp.files.len() > 0 {
                        self.response = Some(resp);
                        self.phase = JobPhase::Outputting;
                        JobAction::HandleOutput { cleanup }
                    } else {
                        match &resp.data {
                            Some(d) => {
                                let _ = store.set_result(self.job_id.as_str(), copy_json(d));
                            },
                            None => {},
                        }
                        let _ = store.update_status(self.job_id.as_str(), JobStatus::Completed, now);
                        self.phase = JobPhase::Finished;
                        JobAction::Stop { cleanup }
                    }
                }
            },
            (JobPhase::Outputting, JobEvent::OutputHandled(Ok(()))) => {
                match &self.response {
                    Some(resp) => match &resp.data {
                        Some(d) => {
                            let _ = store.set_result(self.job_id.as_str(), copy_json(d));
                        },
                        None => {},
                    },
                    None => {},
                }
                let _ = store.update_status(self.job_id.as_str(), JobStatus::Completed, now);
                self.phase = JobPhase::Finished;
                JobAction::Stop { cleanup: None }
            },
            (JobPhase::Outputting, JobEvent::OutputHandled(Err(e))) => {
                self.container = None;
                self.fail(store, e, now)
            },
            _ => JobAction::Stop { cleanup: None },
        }
    }
}

} // verus!
