use hive::defaults::Json;
use hive::interpolation::{interpolate_json_value, InterpolationError, ParseContext, RuntimeContext};

#[test]
fn test_default_value() {
    let ctx = ParseContext::new(vec![]);

    let result = ctx.interpolate("value: ${env.NONEXISTENT:-default}").unwrap();
    assert_eq!(result, "value: default");
}

#[test]
fn test_escaped_dollar() {
    let ctx = ParseContext::new(vec![]);

    let result = ctx.interpolate("shell: $${NOT_INTERPOLATED}").unwrap();
    assert_eq!(result, "shell: ${NOT_INTERPOLATED}");
}

#[test]
fn test_runtime_port_interpolation() {
    let mut ctx = RuntimeContext::new();
    ctx.set_port("http", 8080);
    ctx.set_port("grpc", 9090);

    let result = ctx.interpolate("http://localhost:{{runtime.port.http}}/api").unwrap();
    assert_eq!(result, "http://localhost:8080/api");
}

#[test]
fn test_uses_port_interpolation() {
    let mut ctx = RuntimeContext::new();
    let pg_ports = vec![("db".to_string(), 5432u16)];
    ctx.add_uses_ports("pg", pg_ports);

    let result = ctx.interpolate("port: {{uses.pg.port.db}}").unwrap();
    assert_eq!(result, "port: 5432");
}

#[test]
fn test_service_name_plugin() {
    let mut ctx = ParseContext::new(vec![]);
    ctx.set_service_name("auth");

    let result = ctx.interpolate("name: ${service.name}").unwrap();
    assert_eq!(result, "name: auth");
}

#[test]
fn dotenv_values_are_found() {
    let ctx = ParseContext::with_dotenv(vec![("TEST_VAR".to_string(), "hello".to_string())], vec![]);
    assert_eq!(ctx.interpolate("value: ${env.TEST_VAR}").unwrap(), "value: hello");
}

#[test]
fn unresolved_variable_is_an_error() {
    let ctx = ParseContext::new(vec![]);
    let err = ctx.interpolate("x ${env.NOPE_NOT_SET}").unwrap_err();
    assert!(matches!(err, InterpolationError::Unresolved { .. }));
    assert_eq!(err.message(), "Unresolved variable: ${env.NOPE_NOT_SET} (no default provided)");
}

#[test]
fn unknown_runtime_port_is_an_error() {
    let ctx = RuntimeContext::new();
    let err = ctx.interpolate("{{runtime.port.web}}").unwrap_err();
    assert_eq!(err.message(), "Unresolved runtime port: {{runtime.port.web}}");
    let err = ctx.interpolate("{{uses.x.port.db}}").unwrap_err();
    assert_eq!(err.message(), "Unknown uses alias: x in {{uses.x.port.db}}");
}

#[test]
fn escaped_braces_stay() {
    let ctx = RuntimeContext::new();
    assert_eq!(ctx.interpolate("{{{runtime.port.x}}").unwrap(), "{{runtime.port.x}}");
}

#[test]
fn json_values_are_interpolated_throughout() {
    let ctx = ParseContext::with_dotenv(vec![("HOST".to_string(), "db.local".to_string())], vec![]);
    let mut v = Json::Object(vec![
        ("url".to_string(), Json::Str("postgres://${env.HOST}/app".to_string())),
        ("list".to_string(), Json::Array(vec![Json::Str("${env.MISSING:-x}".to_string()), Json::Number("3".to_string())])),
        ("flag".to_string(), Json::Bool(true)),
    ]);
    assert!(interpolate_json_value(&mut v, &ctx).is_ok());
    assert_eq!(
        v,
        Json::Object(vec![
            ("url".to_string(), Json::Str("postgres://db.local/app".to_string())),
            ("list".to_string(), Json::Array(vec![Json::Str("x".to_string()), Json::Number("3".to_string())])),
            ("flag".to_string(), Json::Bool(true)),
        ])
    );

    let mut bad = Json::Array(vec![Json::Str("${env.NOPE}".to_string())]);
    let before = Json::Array(vec![Json::Str("${env.NOPE}".to_string())]);
    match interpolate_json_value(&mut bad, &ctx) {
        Err(e) => assert_eq!(e.message(), "Unresolved variable: ${env.NOPE} (no default provided)"),
        Ok(()) => panic!("expected a failure"),
    }
    assert_eq!(bad, before);
}

#[test]
fn process_environment_is_consulted() {
    let env = vec![("HOME_DIR".to_string(), "/home/u".to_string()), ("SHARED".to_string(), "from-env".to_string())];
    let ctx = ParseContext::new(env.clone());
    assert_eq!(ctx.interpolate("${env.HOME_DIR}/x").unwrap(), "/home/u/x");
    assert_eq!(ctx.interpolate("${service.name:-none}").unwrap(), "none");
    assert!(ctx.interpolate("${service.name}").is_err());
    let with = ParseContext::with_dotenv(vec![("SHARED".to_string(), "from-dotenv".to_string())], env);
    assert_eq!(with.interpolate("${env.SHARED} ${env.HOME_DIR}").unwrap(), "from-dotenv /home/u");
}

#[test]
fn a_plugin_registered_again_replaces_the_earlier_one() {
    let mut ctx = ParseContext::new(vec![]);
    ctx.set_service_name("first");
    ctx.set_service_name("second");
    assert_eq!(ctx.interpolate("${service.name}").unwrap(), "second");
    assert_eq!(ctx.interpolate("${env.NOT_SET_HERE:-d}").unwrap(), "d");
}
