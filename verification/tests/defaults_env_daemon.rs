use hive::config::SourceType;
use hive::daemon::{count_services, select_logs};
use hive::defaults::{apply_all_defaults, apply_env_defaults, apply_type_defaults, merge_json, plugin_id, DefaultsManager, Json};
use hive::defaults::{copy_json, ServiceDefaultsTarget, TypedSections};
use hive::env_plugins::{parse_dotenv, DotenvPlugin, EnvironmentResolver, PortsParsePlugin, StaticEnvPlugin};
use hive::env_plugins::{config_dotenv_files, without_set_vars};
use hive::flags::{CheckMode, FileStatus, FlagEntry, FlagsConfig, FlagsError, StateConfig};
use hive::flags_cli::{check_mode_label, clear_arguments, dirty_count, list_commands, parse_command, reported_states, set_arguments, FlagsCommand};
use hive::log_level::LogLevel;
use hive::observability::{LogBuffer, LogLine, LogStream};
use hive::source_manager::{SourceInfo, SourceStatus};

fn s(v: &str) -> Json {
    Json::Str(v.to_string())
}

fn obj(entries: Vec<(&str, Json)>) -> Json {
    Json::Object(entries.into_iter().map(|(k, v)| (k.to_string(), v)).collect())
}

#[test]
fn test_merge_json_simple() {
    let a = obj(vec![("key1", s("value1"))]);
    let b = obj(vec![("key2", s("value2"))]);
    let merged = merge_json(&a, &b);

    assert_eq!(merged, obj(vec![("key1", s("value1")), ("key2", s("value2"))]));
}

#[test]
fn test_merge_json_override() {
    let a = obj(vec![("key", s("old"))]);
    let b = obj(vec![("key", s("new"))]);
    let merged = merge_json(&a, &b);

    assert_eq!(merged, obj(vec![("key", s("new"))]));
}

#[test]
fn test_merge_json_nested() {
    let a = obj(vec![("outer", obj(vec![("inner1", s("a")), ("inner2", s("b"))]))]);
    let b = obj(vec![("outer", obj(vec![("inner2", s("c")), ("inner3", s("d"))]))]);
    let merged = merge_json(&a, &b);

    assert_eq!(merged, obj(vec![("outer", obj(vec![("inner1", s("a")), ("inner2", s("c")), ("inner3", s("d"))]))]));
}

#[test]
fn test_defaults_manager() {
    let mut defaults = DefaultsManager::new();
    defaults.set("hive.runner.docker", obj(vec![("socket", s("/var/run/docker.sock"))]));

    let merged = defaults.merge_with("hive.runner.docker", &obj(vec![("image", s("postgres:15"))]));

    assert_eq!(merged, obj(vec![("socket", s("/var/run/docker.sock")), ("image", s("postgres:15"))]));
}

#[test]
fn merging_non_objects_takes_the_use() {
    assert_eq!(merge_json(&obj(vec![("a", s("1"))]), &Json::Array(vec![Json::Null])), Json::Array(vec![Json::Null]));
    assert_eq!(merge_json(&s("x"), &obj(vec![])), obj(vec![]));
    let d = DefaultsManager::new();
    assert_eq!(d.get_or_empty("hive.env.dotenv"), obj(vec![]));
    assert_eq!(d.merge_with("hive.env.dotenv", &Json::Bool(true)), Json::Bool(true));
    assert_eq!(plugin_id("health", "http"), "hive.health.http");
}

#[test]
fn defaults_reach_providers_and_sections() {
    let mut d = DefaultsManager::new();
    d.set("hive.env.dotenv", obj(vec![("files", Json::Array(vec![s(".env")]))]));
    d.set("hive.health.http", obj(vec![("path", s("/health")), ("timeout", Json::Number("5".to_string()))]));
    d.set("hive.health.http", obj(vec![("path", s("/ready"))]));
    assert_eq!(d.plugin_ids().len(), 2);

    let mut providers = vec![("dotenv".to_string(), obj(vec![("file", s(".env.local"))])), ("vault".to_string(), obj(vec![]))];
    apply_env_defaults(&d, &mut providers);
    assert_eq!(providers[0].1, obj(vec![("files", Json::Array(vec![s(".env")])), ("file", s(".env.local"))]));
    assert_eq!(providers[1].1, obj(vec![]));

    let mut sections = vec![("http".to_string(), obj(vec![("port", s("8080"))])), ("tcp".to_string(), obj(vec![]))];
    apply_type_defaults(&d, "health", "http", &mut sections);
    assert_eq!(sections[0].1, obj(vec![("path", s("/ready")), ("port", s("8080"))]));
    assert_eq!(sections[1].1, obj(vec![]));
}

#[test]
fn dotenv_lines_and_files() {
    let env = parse_dotenv("KEY1=value1\nKEY2=\"quoted value\"\n# comment\nKEY3='single quoted'\n");
    assert_eq!(
        env,
        vec![
            ("KEY1".to_string(), "value1".to_string()),
            ("KEY2".to_string(), "quoted value".to_string()),
            ("KEY3".to_string(), "single quoted".to_string()),
        ]
    );
    assert_eq!(parse_dotenv("  A = b c  \r\nnoequals\n\n B=\"\" "), vec![("A".to_string(), "b c".to_string()), ("B".to_string(), "".to_string())]);

    let plugin = DotenvPlugin::new("/srv/app");
    assert_eq!(plugin.files(&obj(vec![("files", Json::Array(vec![s("a.env"), Json::Null, s("b.env")]))])), Ok(vec!["a.env".to_string(), "b.env".to_string()]));
    assert_eq!(plugin.files(&obj(vec![("files", s("a.env"))])), Err("'files' must be an array".to_string()));
    assert_eq!(plugin.files(&obj(vec![("file", s("x.env"))])), Ok(vec!["x.env".to_string()]));
    assert_eq!(plugin.files(&Json::Null), Ok(vec![".env".to_string()]));
    assert_eq!(plugin.path_of("x.env"), "/srv/app/x.env");
    assert_eq!(plugin.path_of("/etc/x.env"), "/etc/x.env");
}

#[test]
fn environment_combines_providers_in_order() {
    let st = StaticEnvPlugin::new();
    assert_eq!(st.load(&obj(vec![("A", s("1")), ("B", Json::Bool(true))])), vec![("A".to_string(), "1".to_string())]);

    let mut resolver = EnvironmentResolver::new();
    resolver.register("dotenv");
    let providers = vec![
        ("static".to_string(), obj(vec![])),
        ("vault".to_string(), obj(vec![])),
        ("dotenv".to_string(), obj(vec![])),
    ];
    assert_eq!(resolver.providers_to_load(&providers), vec![2]);

    let base = vec![("A".to_string(), "1".to_string())];
    let loaded = vec![vec![("A".to_string(), "2".to_string()), ("B".to_string(), "3".to_string())]];
    assert_eq!(
        EnvironmentResolver::combine(Some(&base), &loaded),
        vec![
            ("A".to_string(), "1".to_string()),
            ("A".to_string(), "2".to_string()),
            ("B".to_string(), "3".to_string())
        ]
    );
}

#[test]
fn ports_plugin_keys_and_cache() {
    let mut p = PortsParsePlugin::with_prefix("app-");
    assert_eq!(p.full_key("web"), "app-web");
    assert_eq!(p.cached("app-web"), None);
    p.remember("app-web", 8080);
    assert_eq!(p.cached("app-web"), Some(8080));
    assert_eq!(PortsParsePlugin::port_from_output(" 3000\n"), Some(3000));
    assert_eq!(PortsParsePlugin::port_from_output("70000"), None);
    assert_eq!(PortsParsePlugin::new().full_key("db"), "db");
}

fn line(service: &str, message: &str, timestamp: i64, level: LogLevel) -> LogLine {
    LogLine { timestamp, service_fqn: service.to_string(), level, message: message.to_string(), stream: LogStream::Stdout }
}

#[test]
fn get_logs_selects_service_time_and_level() {
    let mut b = LogBuffer::new(100);
    b.add(line("app:web", "w1", 1, LogLevel::Info));
    b.add(line("app:web", "w2", 3, LogLevel::Error));
    b.add(line("other:web", "o1", 2, LogLevel::Warn));
    b.add(line("app:db", "d1", 4, LogLevel::Debug));

    let own = select_logs(&b, Some("app:web"), None, None, None);
    assert_eq!(own.iter().map(|l| l.message.as_str()).collect::<Vec<_>>(), vec!["w1", "w2"]);

    let by_name = select_logs(&b, Some("web"), Some(10), None, None);
    assert_eq!(by_name.iter().map(|l| l.message.as_str()).collect::<Vec<_>>(), vec!["w1", "o1", "w2"]);

    let last_two = select_logs(&b, None, Some(2), None, None);
    assert_eq!(last_two.iter().map(|l| l.message.as_str()).collect::<Vec<_>>(), vec!["w2", "d1"]);

    let since = select_logs(&b, None, None, Some(2), Some("warn"));
    assert_eq!(since.iter().map(|l| l.message.as_str()).collect::<Vec<_>>(), vec!["o1", "w2"]);

    let unknown_level = select_logs(&b, Some("app:db"), None, None, Some("loud"));
    assert_eq!(unknown_level.len(), 1);
    assert!(select_logs(&b, Some("app:none"), None, None, None).is_empty());
}

#[test]
fn status_counts_services() {
    let src = |status: SourceStatus, n: usize| SourceInfo {
        name: "s".to_string(),
        path: "/p".to_string(),
        source_type: SourceType::Yaml,
        enabled: true,
        service_count: n,
        status,
    };
    let sources = vec![src(SourceStatus::Running, 3), src(SourceStatus::Stopped, 2), src(SourceStatus::Running, 1)];
    assert_eq!(count_services(&sources), (4, 6));
    assert_eq!(count_services(&vec![]), (0, 0));
}

fn flags_config() -> FlagsConfig {
    FlagsConfig {
        check: CheckMode::Strict,
        states: vec![
            ("reviewed".to_string(), StateConfig { description: "Code reviewed".to_string() }),
            ("tested".to_string(), StateConfig { description: "Tested".to_string() }),
        ],
    }
}

#[test]
fn flags_commands_and_arguments() {
    assert_eq!(parse_command(Some("status")), Ok(Some(FlagsCommand::Status)));
    assert_eq!(parse_command(Some("set")), Ok(Some(FlagsCommand::SetFlags)));
    assert_eq!(parse_command(None), Ok(None));
    assert_eq!(parse_command(Some("wipe")), Err("Unknown command: wipe".to_string()));
    assert_eq!(list_commands().len(), 6);
    assert_eq!(list_commands()[3].usage, "flags clear <state> [files...]");

    let args = |v: &[&str]| v.iter().map(|a| a.to_string()).collect::<Vec<_>>();
    match set_arguments(&args(&[])) {
        Err(FlagsError::Other(m)) => assert_eq!(m, "Usage: adi flags set <state> <files...>"),
        other => panic!("unexpected {:?}", other),
    }
    match set_arguments(&args(&["reviewed"])) {
        Err(FlagsError::Other(m)) => assert_eq!(m, "No files specified. Usage: adi flags set <state> <files...>"),
        other => panic!("unexpected {:?}", other),
    }
    let (state, files) = set_arguments(&args(&["reviewed", "a.rs", "b.rs"])).unwrap();
    assert_eq!(state, "reviewed");
    assert_eq!(files, args(&["a.rs", "b.rs"]));
    let (state, files) = clear_arguments(&args(&["tested"])).unwrap();
    assert_eq!(state, "tested");
    assert!(files.is_empty());
    assert!(clear_arguments(&args(&[])).is_err());

    let config = flags_config();
    assert_eq!(reported_states(&config, None).unwrap(), args(&["reviewed", "tested"]));
    assert_eq!(reported_states(&config, Some("tested")).unwrap(), args(&["tested"]));
    assert!(matches!(reported_states(&config, Some("shipped")), Err(FlagsError::UnknownState(_))));
    assert_eq!(check_mode_label(config.check), "strict (mtime + hash)");

    let entry = |p: &str| FlagEntry { path: p.to_string(), mtime: 1, hash: "h".to_string() };
    let results = vec![(entry("a"), FileStatus::Clean), (entry("b"), FileStatus::Dirty), (entry("c"), FileStatus::Missing)];
    assert_eq!(dirty_count(&results), 2);
}

#[test]
fn all_defaults_reach_every_service_part() {
    let defaults = vec![
        ("hive.runner.docker".to_string(), obj(vec![("restart", s("always"))])),
        ("hive.health.http".to_string(), obj(vec![("path", s("/health"))])),
        ("hive.rollout.recreate".to_string(), obj(vec![("wait", Json::Bool(true))])),
        ("hive.env.static".to_string(), obj(vec![("A", s("1"))])),
    ];
    let web = ServiceDefaultsTarget {
        runner: TypedSections {
            plugin_type: "docker".to_string(),
            config: vec![("docker".to_string(), obj(vec![("image", s("nginx"))]))],
        },
        environment: Some(vec![("static".to_string(), obj(vec![("B", s("2"))]))]),
        healthchecks: vec![
            TypedSections { plugin_type: "http".to_string(), config: vec![("http".to_string(), obj(vec![("port", s("80"))]))] },
            TypedSections { plugin_type: "tcp".to_string(), config: vec![("tcp".to_string(), obj(vec![]))] },
        ],
        rollout: Some(TypedSections {
            plugin_type: "recreate".to_string(),
            config: vec![("recreate".to_string(), obj(vec![]))],
        }),
    };
    let worker = ServiceDefaultsTarget {
        runner: TypedSections {
            plugin_type: "script".to_string(),
            config: vec![("script".to_string(), obj(vec![("run", s("make"))]))],
        },
        environment: None,
        healthchecks: vec![],
        rollout: None,
    };
    let mut services = vec![("web".to_string(), web), ("worker".to_string(), worker)];
    let mut env = Some(vec![("static".to_string(), obj(vec![]))]);
    apply_all_defaults(defaults, &mut services, &mut env);

    let web = &services[0].1;
    assert_eq!(services[0].0, "web");
    assert_eq!(web.runner.config[0].1, obj(vec![("restart", s("always")), ("image", s("nginx"))]));
    assert_eq!(web.environment.as_ref().unwrap()[0].1, obj(vec![("A", s("1")), ("B", s("2"))]));
    assert_eq!(web.healthchecks[0].config[0].1, obj(vec![("path", s("/health")), ("port", s("80"))]));
    assert_eq!(web.healthchecks[1].config[0].1, obj(vec![]));
    assert_eq!(web.rollout.as_ref().unwrap().config[0].1, obj(vec![("wait", Json::Bool(true))]));
    let worker = &services[1].1;
    assert_eq!(worker.runner.config[0].1, obj(vec![("run", s("make"))]));
    assert!(worker.environment.is_none());
    assert_eq!(env.unwrap()[0].1, obj(vec![("A", s("1"))]));
}

#[test]
fn configured_dotenv_files_and_precedence() {
    let raw = obj(vec![(
        "environment",
        obj(vec![("dotenv", obj(vec![("files", Json::Array(vec![s(".env"), Json::Bool(false), s("/etc/app.env")]))]))]),
    )]);
    assert_eq!(config_dotenv_files(&raw), vec![".env".to_string(), "/etc/app.env".to_string()]);
    assert!(config_dotenv_files(&obj(vec![("environment", obj(vec![]))])).is_empty());
    assert!(config_dotenv_files(&obj(vec![("environment", obj(vec![("dotenv", obj(vec![("files", s(".env"))]))]))])).is_empty());

    let vars = vec![
        ("A".to_string(), "1".to_string()),
        ("HOME".to_string(), "/x".to_string()),
        ("B".to_string(), "2".to_string()),
    ];
    let env = vec![("HOME".to_string(), "/root".to_string())];
    assert_eq!(without_set_vars(vars, &env), vec![("A".to_string(), "1".to_string()), ("B".to_string(), "2".to_string())]);
}

#[test]
fn defaults_applied_twice_change_nothing_more() {
    let defaults = || vec![
        ("hive.runner.docker".to_string(), obj(vec![("restart", s("always")), ("opts", obj(vec![("a", s("1"))]))])),
        ("hive.env.static".to_string(), obj(vec![("A", s("1"))])),
    ];
    let service = ServiceDefaultsTarget {
        runner: TypedSections {
            plugin_type: "docker".to_string(),
            config: vec![("docker".to_string(), obj(vec![("opts", obj(vec![("b", s("2"))])), ("image", s("nginx"))]))],
        },
        environment: Some(vec![("static".to_string(), obj(vec![("B", s("2"))]))]),
        healthchecks: vec![],
        rollout: None,
    };
    let mut services = vec![("web".to_string(), service)];
    let mut env = Some(vec![("static".to_string(), obj(vec![]))]);
    apply_all_defaults(defaults(), &mut services, &mut env);
    let once_runner = copy_json(&services[0].1.runner.config[0].1);
    let once_env = copy_json(&env.as_ref().unwrap()[0].1);
    let once_service_env = copy_json(&services[0].1.environment.as_ref().unwrap()[0].1);
    apply_all_defaults(defaults(), &mut services, &mut env);
    assert_eq!(services[0].1.runner.config[0].1, once_runner);
    assert_eq!(env.as_ref().unwrap()[0].1, once_env);
    assert_eq!(services[0].1.environment.as_ref().unwrap()[0].1, once_service_env);
    assert_eq!(
        once_runner,
        obj(vec![("restart", s("always")), ("opts", obj(vec![("a", s("1")), ("b", s("2"))])), ("image", s("nginx"))])
    );
}
