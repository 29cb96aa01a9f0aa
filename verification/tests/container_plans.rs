use hive::container_plan::{container_plan, image_arch, original_command, response_path};
use hive::container_plan::{CONTAINER_INPUT_DIR, CONTAINER_OUTPUT_DIR, CONTAINER_WORKER_BIN};
use hive::executor::{ContainerArch, Package};

#[test]
fn plan_names_mounts_and_limits() {
    let p = Package::GithubPublic { image: "org/worker:1".to_string() };
    let plan = container_plan(&p, "job-7", "/opt/bin/worker", "/tmp", "node app.js");
    assert_eq!(plan.name, "adi-executor-job-7");
    assert_eq!(plan.image, "ghcr.io/org/worker:1");
    assert_eq!(plan.host_base_dir, "/tmp/adi-executor-job-7");
    assert_eq!(plan.host_input_dir, "/tmp/adi-executor-job-7/input");
    assert_eq!(plan.host_output_dir, "/tmp/adi-executor-job-7/output");
    assert_eq!(plan.mounts.len(), 3);
    assert_eq!(plan.mounts[0].target, CONTAINER_WORKER_BIN);
    assert_eq!(plan.mounts[0].source, "/opt/bin/worker");
    assert!(plan.mounts[0].read_only);
    assert_eq!(plan.mounts[1].target, CONTAINER_INPUT_DIR);
    assert_eq!(plan.mounts[1].source, "/tmp/adi-executor-job-7/input");
    assert!(plan.mounts[1].read_only);
    assert_eq!(plan.mounts[2].target, CONTAINER_OUTPUT_DIR);
    assert!(!plan.mounts[2].read_only);
    assert_eq!(plan.entrypoint, vec!["/usr/local/bin/adi-worker".to_string()]);
    assert_eq!(plan.env, vec!["JOB_ID=job-7".to_string(), "ORIGINAL_CMD=node app.js".to_string()]);
    assert_eq!(plan.memory, 536870912);
    assert_eq!(plan.cpu_period, 100000);
    assert_eq!(plan.cpu_quota, 50000);
}

#[test]
fn plan_keeps_registry_urls_and_trailing_slash() {
    let p = Package::RegistryPublic { url: "registry.test/img".to_string() };
    let plan = container_plan(&p, "j", "/w", "/var/tmp/", "");
    assert_eq!(plan.image, "registry.test/img");
    assert_eq!(plan.host_base_dir, "/var/tmp/adi-executor-j");
    assert_eq!(plan.env[1], "ORIGINAL_CMD=");
}

#[test]
fn image_architectures() {
    assert_eq!(image_arch(Some("arm64")), ContainerArch::Arm64);
    assert_eq!(image_arch(Some("aarch64")), ContainerArch::Arm64);
    assert_eq!(image_arch(Some("amd64")), ContainerArch::Amd64);
    assert_eq!(image_arch(None), ContainerArch::Amd64);
}

#[test]
fn image_commands_prefer_cmd() {
    let cmd = vec!["node".to_string(), "app.js".to_string()];
    let ep = vec!["/entry".to_string()];
    let empty: Vec<String> = Vec::new();
    assert_eq!(original_command(Some(&cmd), Some(&ep)), Some("node app.js".to_string()));
    assert_eq!(original_command(Some(&empty), Some(&ep)), Some("/entry".to_string()));
    assert_eq!(original_command(None, Some(&ep)), Some("/entry".to_string()));
    assert_eq!(original_command(None, None), None);
    assert_eq!(original_command(Some(&empty), Some(&empty)), None);
}

#[test]
fn response_lives_in_output_dir() {
    assert_eq!(response_path("/tmp/adi-executor-j/output"), "/tmp/adi-executor-j/output/response.json");
}
