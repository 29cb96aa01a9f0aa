use hive::executor::{OutputFile, WorkerError};
use hive::job_runner::{JobAction, JobEvent, JobPhase, JobRun, WorkerResponse};
use hive::defaults::Json;
use hive::executor::{ApiError, ErrorCode, ExecutorError, JobStatus, OutputConfig, Package, WorkerRequest};
use hive::job_store::JobStore;

fn package() -> Package {
    Package::GithubPublic { image: "org/worker:1".to_string() }
}

fn request() -> WorkerRequest {
    WorkerRequest::Message { message: "hi".to_string() }
}

fn output() -> OutputConfig {
    OutputConfig::Webhook { url: "https://hook.test".to_string(), headers: None }
}

#[test]
fn jobs_move_through_their_statuses() {
    let mut store = JobStore::new();
    let job = store.create_job(package(), request(), output(), "id-1", 100);
    assert_eq!(job.status, JobStatus::Queued);
    assert_eq!(job.created_at, 100);
    assert_eq!(store.get_job("id-1").unwrap().id, "id-1");

    store.update_status("id-1", JobStatus::Running, 200).unwrap();
    let j = store.get_job("id-1").unwrap();
    assert_eq!(j.status, JobStatus::Running);
    assert_eq!(j.started_at, Some(200));
    assert_eq!(j.completed_at, None);

    store.set_container_id("id-1", "c1".to_string()).unwrap();
    store.set_result("id-1", Json::Bool(true)).unwrap();
    store.update_status("id-1", JobStatus::Completed, 300).unwrap();
    let j = store.get_job("id-1").unwrap();
    assert_eq!(j.container_id.as_deref(), Some("c1"));
    assert_eq!(j.result, Some(Json::Bool(true)));
    assert_eq!(j.completed_at, Some(300));
}

#[test]
fn unknown_jobs_are_not_found() {
    let mut store = JobStore::new();
    match store.get_job("nope") {
        Err(ExecutorError::JobNotFound(id)) => assert_eq!(id, "nope"),
        other => panic!("unexpected {:?}", other),
    }
    assert!(matches!(store.update_status("nope", JobStatus::Running, 1), Err(ExecutorError::JobNotFound(_))));
    assert!(store.list_jobs().is_empty());
}

#[test]
fn failed_jobs_record_the_error_and_old_ones_are_forgotten() {
    let mut store = JobStore::new();
    store.create_job(package(), request(), output(), "a", 0);
    store.create_job(package(), request(), output(), "b", 0);
    store.create_job(package(), request(), output(), "c", 0);
    store.set_error("a", ApiError::new(ErrorCode::Internal), 1_000_000).unwrap();
    let a = store.get_job("a").unwrap();
    assert_eq!(a.status, JobStatus::Failed);
    assert_eq!(a.error.unwrap().code, ErrorCode::Internal);
    store.update_status("b", JobStatus::Completed, 10_000_000_000).unwrap();
    assert_eq!(store.list_jobs().len(), 3);

    let hour: i64 = 3_600_000_000;
    store.cleanup_old_jobs(1, 1_000_000 + hour + 1);
    let mut ids: Vec<String> = store.list_jobs().into_iter().map(|j| j.id).collect();
    ids.sort();
    assert_eq!(ids, vec!["b".to_string(), "c".to_string()]);
}

#[test]
fn registry_records() {
    use_registry();
}

fn use_registry() {
    let src = |name: &str, enabled: bool| hive::registry::RegisteredSource {
        name: name.to_string(),
        path: format!("/p/{}", name),
        source_type: "yaml".to_string(),
        enabled,
        last_accessed: None,
        created_at: None,
    };
    let sources = vec![src("a", true), src("b", false), src("c", true)];
    assert_eq!(
        hive::registry::read_sources_registry(&sources),
        vec![("a".to_string(), "/p/a".to_string()), ("c".to_string(), "/p/c".to_string())]
    );
    assert_eq!(hive::registry::legacy_source_type(true), hive::config::SourceType::Sqlite);
    let st = hive::registry::RuntimeState::default();
    assert_eq!(st.state, "stopped");
    assert_eq!(st.restart_count, 0);
}

fn container() -> hive::executor::ContainerInfo {
    hive::executor::ContainerInfo { id: "c9".to_string(), name: "job".to_string(), output_dir: "/tmp/out".to_string() }
}

#[test]
fn a_run_records_each_outcome() {
    let mut store = JobStore::new();
    store.create_job(package(), request(), output(), "j", 0);
    let (mut run, action) = JobRun::start(&mut store, "j", 1);
    assert!(matches!(action, JobAction::PullImage));
    assert_eq!(store.get_job("j").unwrap().status, JobStatus::Pulling);

    assert!(matches!(run.step(&mut store, JobEvent::Pulled(Ok(())), 2), JobAction::CreateContainer));
    assert_eq!(store.get_job("j").unwrap().started_at, Some(2));
    match run.step(&mut store, JobEvent::Created(Ok(container())), 3) {
        JobAction::StartContainer { container_id } => assert_eq!(container_id, "c9"),
        other => panic!("unexpected {:?}", other),
    }
    assert_eq!(store.get_job("j").unwrap().container_id.as_deref(), Some("c9"));
    assert!(matches!(run.step(&mut store, JobEvent::Started(Ok(())), 4), JobAction::WaitContainer { .. }));
    match run.step(&mut store, JobEvent::Exited(Ok(0)), 5) {
        JobAction::ReadResponse { output_dir } => assert_eq!(output_dir, "/tmp/out"),
        other => panic!("unexpected {:?}", other),
    }
    let resp = WorkerResponse { success: true, data: Some(Json::Str("ok".to_string())), error: None, files: vec![] };
    match run.step(&mut store, JobEvent::Responded(Ok(resp)), 6) {
        JobAction::Stop { cleanup } => assert_eq!(cleanup.as_deref(), Some("c9")),
        other => panic!("unexpected {:?}", other),
    }
    assert_eq!(run.phase, JobPhase::Finished);
    let j = store.get_job("j").unwrap();
    assert_eq!(j.status, JobStatus::Completed);
    assert_eq!(j.result, Some(Json::Str("ok".to_string())));
    assert_eq!(j.completed_at, Some(6));
}

#[test]
fn a_failed_worker_is_an_execution_failure() {
    let mut store = JobStore::new();
    store.create_job(package(), request(), output(), "j", 0);
    let (mut run, _) = JobRun::start(&mut store, "j", 1);
    run.step(&mut store, JobEvent::Pulled(Ok(())), 2);
    run.step(&mut store, JobEvent::Created(Ok(container())), 3);
    match run.step(&mut store, JobEvent::Started(Err(ApiError::new(ErrorCode::ContainerStartFailed))), 4) {
        JobAction::Stop { cleanup } => assert_eq!(cleanup.as_deref(), Some("c9")),
        other => panic!("unexpected {:?}", other),
    }
    assert_eq!(store.get_job("j").unwrap().status, JobStatus::Failed);

    let mut store = JobStore::new();
    store.create_job(package(), request(), output(), "k", 0);
    let (mut run, _) = JobRun::start(&mut store, "k", 1);
    run.step(&mut store, JobEvent::Pulled(Ok(())), 2);
    run.step(&mut store, JobEvent::Created(Ok(container())), 3);
    run.step(&mut store, JobEvent::Started(Ok(())), 4);
    run.step(&mut store, JobEvent::Exited(Ok(1)), 5);
    let resp = WorkerResponse {
        success: false,
        data: None,
        error: Some(WorkerError { code: "E42".to_string(), details: Some("boom".to_string()) }),
        files: vec![OutputFile { path: "a".to_string(), content: "x".to_string(), binary: false }],
    };
    run.step(&mut store, JobEvent::Responded(Ok(resp)), 6);
    let k = store.get_job("k").unwrap();
    assert_eq!(k.status, JobStatus::Failed);
    let e = k.error.unwrap();
    assert_eq!(e.code, ErrorCode::ExecutionFailed);
    assert_eq!(e.details.as_deref(), Some("E42: boom"));
}

#[test]
fn a_failed_response_removes_the_container() {
    let mut store = JobStore::new();
    store.create_job(package(), request(), output(), "f", 0);
    let (mut run, _) = JobRun::start(&mut store, "f", 1);
    run.step(&mut store, JobEvent::Pulled(Ok(())), 2);
    run.step(&mut store, JobEvent::Created(Ok(container())), 3);
    run.step(&mut store, JobEvent::Started(Ok(())), 4);
    run.step(&mut store, JobEvent::Exited(Ok(1)), 5);
    let resp = WorkerResponse { success: false, data: None, error: None, files: vec![] };
    match run.step(&mut store, JobEvent::Responded(Ok(resp)), 6) {
        JobAction::Stop { cleanup } => assert_eq!(cleanup.as_deref(), Some("c9")),
        other => panic!("unexpected {:?}", other),
    }
    let f = store.get_job("f").unwrap();
    assert_eq!(f.status, JobStatus::Failed);
    assert_eq!(f.completed_at, Some(6));
    assert_eq!(f.result, None);
    let e = f.error.unwrap();
    assert_eq!(e.code, ErrorCode::ExecutionFailed);
    assert_eq!(e.details.as_deref(), Some("unknown error"));
}
