use ops_core::client::{ServerLine, classify_server_line, parse_execution_output};
use ops_core::collection::{parse_version_content, parse_version_file};
use ops_core::config::{ClientConfig, ServerConfig};
use ops_core::model::ServiceStatus;
use ops_core::web::{ServiceAction, UserAuth, service_command, update_command};

#[test]
fn test_server_config_defaults() {
    let config = ServerConfig::default();
    assert_eq!(config.tcp_port, 12345);
    assert_eq!(config.http_port, 3000);
}

#[test]
fn test_server_addresses() {
    let config = ServerConfig::default();
    assert_eq!(config.tcp_address(), "0.0.0.0:12345");
    assert_eq!(config.http_address(), "0.0.0.0:3000");
}

#[test]
fn client_config_address() {
    let config = ClientConfig::default();
    assert_eq!(config.server_address(), "127.0.0.1:12345");
    assert_eq!(config.heartbeat_interval_secs, 3);
}

#[test]
fn classify_server_lines() {
    match classify_server_line("CMD:c1::ls -la\n") {
        ServerLine::Command { command_id, command } => {
            assert_eq!(command_id, "c1");
            assert_eq!(command, "ls -la");
        },
        _ => panic!("tracked command expected"),
    }
    match classify_server_line("CMD:uptime") {
        ServerLine::LegacyCommand { command } => assert_eq!(command, "uptime"),
        _ => panic!("legacy command expected"),
    }
    match classify_server_line("BROADCAST::hello fleet\n") {
        ServerLine::Broadcast { text } => assert_eq!(text, "hello fleet"),
        _ => panic!("broadcast expected"),
    }
    assert!(matches!(classify_server_line("ACK\n"), ServerLine::Ack));
    assert!(matches!(classify_server_line("  \n"), ServerLine::Empty));
    assert!(matches!(classify_server_line("??"), ServerLine::Other));
}

#[test]
fn execution_output_parses_back() {
    let report = "命令执行完成\n状态码: 7\n标准输出:\nabc";
    let (out, err, code) = parse_execution_output(report);
    assert_eq!(out, "abc");
    assert_eq!(err, "");
    assert_eq!(code, 7);

    let (out, err, code) = parse_execution_output("no markers at all");
    assert_eq!(out, "no markers at all");
    assert_eq!(err, "");
    assert_eq!(code, 0);

    let (_, _, code) = parse_execution_output("命令执行完成\n状态码: -9\n标准输出:\nx");
    assert_eq!(code, -9);

    let (_, _, code) = parse_execution_output("命令执行完成\n状态码: junk\n标准输出:\nx");
    assert_eq!(code, -1);
}

#[test]
fn version_file_json_form() {
    let v = parse_version_file("{\"app\":\"test_app\",\"created_time\":\"2024-01-01T00:00:00Z\"}")
        .unwrap();
    assert_eq!(v.app, "test_app");
    assert_eq!(v.created_time, "2024-01-01T00:00:00Z");

    assert!(parse_version_file("invalid json").is_none());
    assert!(parse_version_file("{\"app\":\"x\"}").is_none());
}

#[test]
fn version_content_key_value_form() {
    let content = "version: v1.0.0\ndeploy_time: 2025-08-29 14:30:25\nbranch: main\ncommit: abc123";
    let info = parse_version_content("test-app", content, ServiceStatus::Stopped);
    assert_eq!(info.name, "test-app");
    assert_eq!(info.version, "v1.0.0");
    assert_eq!(info.deploy_time, "2025-08-29 14:30:25");
    assert_eq!(info.branch.as_deref(), Some("main"));
    assert_eq!(info.commit.as_deref(), Some("abc123"));
    assert!(matches!(info.service_status, ServiceStatus::Stopped));
}

#[test]
fn version_content_json_form() {
    let content = "{\"version\": \"2.1\", \"deploy_time\": \"today\"}";
    let info = parse_version_content("demo", content, ServiceStatus::Running("5".to_string()));
    assert_eq!(info.version, "2.1");
    assert_eq!(info.deploy_time, "today");
    assert!(info.branch.is_none());

    let sparse = parse_version_content("demo", "{}", ServiceStatus::Unknown);
    assert_eq!(sparse.version, "unknown");
    assert_eq!(sparse.deploy_time, "unknown");
}

#[test]
fn service_commands_are_exact() {
    assert_eq!(
        service_command("demo", ServiceAction::Start),
        "cd /tmp/apps/demo && bash demo.sh start"
    );
    assert_eq!(
        service_command("demo", ServiceAction::Stop),
        "cd /tmp/apps/demo && if [ -f demo.pid ]; then kill $(cat demo.pid) && rm -f demo.pid; else echo 'Service is not running'; fi"
    );
    assert_eq!(
        update_command("demo", "2.0"),
        "cd /tmp/apps/demo && bash demo.sh update 2.0"
    );
    // Every built service command passes the policy's management fast path.
    let validator = ops_core::security::CommandValidator::new();
    for action in [
        ServiceAction::Start,
        ServiceAction::Stop,
        ServiceAction::Restart,
        ServiceAction::Status,
    ] {
        let cmd = service_command("demo", action);
        assert!(matches!(
            validator.validate(&cmd),
            ops_core::security::ValidationResult::Allowed
        ));
    }
}

#[test]
fn operator_credentials() {
    let auth = UserAuth::default();
    assert!(auth.check_credentials("admin", "admin123"));
    assert!(!auth.check_credentials("admin", "wrong"));
    assert!(!auth.check_credentials("root", "admin123"));
}
