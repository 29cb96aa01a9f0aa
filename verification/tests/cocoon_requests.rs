use hive::cocoon_spawn::{
    cocoon_fqn, cocoon_service_config, registration_signature, terminate_reply, CocoonSpawn, SpawnAction, SpawnEvent,
    SpawnPhase, SpawnReply, SpawnRequest,
};
use hive::defaults::Json;
use hive::signaling_control::CocoonKindInfo;

fn kinds() -> Vec<CocoonKindInfo> {
    vec![
        CocoonKindInfo { id: "ubuntu".to_string(), image: "cocoon/ubuntu:1".to_string() },
        CocoonKindInfo { id: "alpine".to_string(), image: "cocoon/alpine:3".to_string() },
    ]
}

fn request(name: Option<&str>, kind: &str) -> SpawnRequest {
    SpawnRequest {
        request_id: "r1".to_string(),
        setup_token: "tok".to_string(),
        name: name.map(|n| n.to_string()),
        kind: kind.to_string(),
    }
}

fn reply(a: SpawnAction) -> SpawnReply {
    match a {
        SpawnAction::Reply(r) => r,
        other => panic!("expected a reply, got {:?}", other),
    }
}

#[test]
fn unknown_kinds_are_refused() {
    let (spawn, action) = CocoonSpawn::begin(request(None, "windows"), &kinds(), "wss://sig", "cocoons", "abcd1234");
    assert!(spawn.is_none());
    assert_eq!(
        reply(action),
        SpawnReply {
            request_id: "r1".to_string(),
            success: false,
            container_id: None,
            error: Some("unknown cocoon kind: windows".to_string()),
        }
    );
}

#[test]
fn spawn_creates_then_starts() {
    let (spawn, action) = CocoonSpawn::begin(request(None, "alpine"), &kinds(), "wss://sig", "cocoons", "abcd1234");
    let mut spawn = spawn.unwrap();
    assert_eq!(spawn.container_name, "cocoon-abcd1234");
    assert_eq!(spawn.fqn, "cocoons:cocoon-abcd1234");
    match action {
        SpawnAction::CreateService { source_id, name, config } => {
            assert_eq!(source_id, "cocoons");
            assert_eq!(name, "cocoon-abcd1234");
            assert_eq!(config, cocoon_service_config("cocoon/alpine:3", "wss://sig", "tok"));
        }
        other => panic!("unexpected {:?}", other),
    }
    assert!(matches!(spawn.step(SpawnEvent::Created), SpawnAction::StartService { fqn } if fqn == "cocoons:cocoon-abcd1234"));
    let done = reply(spawn.step(SpawnEvent::Started));
    assert!(done.success);
    assert_eq!(done.container_id, Some("cocoon-abcd1234".to_string()));
    assert_eq!(spawn.phase, SpawnPhase::Done);
}

#[test]
fn failed_start_removes_the_service() {
    let (spawn, _) = CocoonSpawn::begin(request(Some("mine"), "ubuntu"), &kinds(), "wss://sig", "cocoons", "x");
    let mut spawn = spawn.unwrap();
    spawn.step(SpawnEvent::Created);
    assert!(matches!(spawn.step(SpawnEvent::StartFailed("no image".to_string())), SpawnAction::DeleteService { fqn } if fqn == "cocoons:mine"));
    let r = reply(spawn.step(SpawnEvent::Deleted));
    assert!(!r.success);
    assert_eq!(r.error, Some("start service failed: no image".to_string()));
}

#[test]
fn creation_failures_reply_at_once() {
    let (spawn, _) = CocoonSpawn::begin(request(Some("a"), "ubuntu"), &kinds(), "wss://sig", "cocoons", "x");
    let mut spawn = spawn.unwrap();
    assert_eq!(reply(spawn.step(SpawnEvent::CreateFailed("exists".to_string()))).error, Some("create service failed: exists".to_string()));
    let (spawn, _) = CocoonSpawn::begin(request(Some("b"), "ubuntu"), &kinds(), "wss://sig", "cocoons", "x");
    let mut spawn = spawn.unwrap();
    assert_eq!(
        reply(spawn.step(SpawnEvent::ConfigRejected("bad".to_string()))).error,
        Some("failed to build service config: bad".to_string())
    );
}

#[test]
fn service_config_and_names() {
    let c = cocoon_service_config("img", "wss://s", "t");
    let obj = |v: Vec<(&str, Json)>| Json::Object(v.into_iter().map(|(k, v)| (k.to_string(), v)).collect());
    let st = |s: &str| Json::Str(s.to_string());
    assert_eq!(
        c,
        obj(vec![
            (
                "runner",
                obj(vec![
                    ("type", st("cocoon-spawner")),
                    ("cocoon-spawner", obj(vec![("image", st("img")), ("signaling_url", st("wss://s")), ("setup_token", st("t"))])),
                ]),
            ),
            ("restart", st("never")),
        ])
    );
    assert_eq!(cocoon_fqn("cocoons", "c1"), "cocoons:c1");
    let ok = terminate_reply("t1".to_string(), Ok(()));
    assert!(ok.success && ok.error.is_none());
    let bad = terminate_reply("t2".to_string(), Err("gone".to_string()));
    assert_eq!(bad.error, Some("delete service failed: gone".to_string()));
    assert_eq!(registration_signature("s3cret").len(), 64);
    assert_ne!(registration_signature("s3cret"), registration_signature("other"));
}
