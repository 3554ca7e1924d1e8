use ops_core::model::Timestamp;
use ops_core::security::{AuthToken, CommandValidator, ValidationResult, validate_auth_header};

fn reason_of(r: ValidationResult) -> String {
    match r {
        ValidationResult::Allowed => panic!("expected Blocked"),
        ValidationResult::Blocked { reason } => reason,
    }
}

#[test]
fn test_command_validator_allowed_commands() {
    let validator = CommandValidator::new();

    match validator.validate("ps aux") {
        ValidationResult::Allowed => {},
        ValidationResult::Blocked { reason } => panic!("Should be allowed: {}", reason),
    }

    match validator.validate("ls -la") {
        ValidationResult::Allowed => {},
        ValidationResult::Blocked { reason } => panic!("Should be allowed: {}", reason),
    }
}

#[test]
fn test_command_validator_dangerous_commands() {
    let validator = CommandValidator::new();

    match validator.validate("rm -rf /") {
        ValidationResult::Blocked { reason } => {
            assert!(reason.contains("危险模式") || reason.contains("dangerous"));
        },
        ValidationResult::Allowed => panic!("Should be blocked"),
    }

    match validator.validate("shutdown now") {
        ValidationResult::Blocked { reason } => {
            assert!(reason.contains("危险模式") || reason.contains("dangerous"));
        },
        ValidationResult::Allowed => panic!("Should be blocked"),
    }
}

#[test]
fn test_command_validator_unknown_commands() {
    let validator = CommandValidator::new();

    match validator.validate("malicious_unknown_command") {
        ValidationResult::Blocked { reason } => {
            assert!(reason.contains("不在允许列表中") || reason.contains("not allowed"));
        },
        ValidationResult::Allowed => panic!("Should be blocked"),
    }
}

#[test]
fn test_command_validator_empty_command() {
    let validator = CommandValidator::new();

    match validator.validate("") {
        ValidationResult::Blocked { .. } => {},
        ValidationResult::Allowed => panic!("Empty command should be blocked"),
    }

    match validator.validate("   ") {
        ValidationResult::Blocked { .. } => {},
        ValidationResult::Allowed => panic!("Whitespace-only command should be blocked"),
    }
}

#[test]
fn test_command_validator_long_command() {
    let validator = CommandValidator::new();
    let long_command = "a".repeat(2000);

    match validator.validate(&long_command) {
        ValidationResult::Blocked { reason } => {
            assert!(reason.contains("长度超过限制") || reason.contains("too long"));
        },
        ValidationResult::Allowed => panic!("Long command should be blocked"),
    }
}

#[test]
fn tests_test_command_sanitization() {
    let validator = CommandValidator::new();

    let dirty_command = "ps aux; rm -rf /; echo hello";
    let clean_command = validator.sanitize_command(dirty_command);

    assert!(!clean_command.contains(";"));
    assert!(!clean_command.contains("&&"));
    assert!(!clean_command.contains("||"));
}

#[test]
fn test_command_validation_allowed() {
    let validator = CommandValidator::new();

    match validator.validate("ps aux") {
        ValidationResult::Allowed => {},
        ValidationResult::Blocked { reason } => panic!("Should be allowed: {}", reason),
    }
}

#[test]
fn test_command_validation_blocked_dangerous() {
    let validator = CommandValidator::new();

    match validator.validate("rm -rf /") {
        ValidationResult::Blocked { reason } => {
            assert!(reason.contains("危险模式"));
        },
        ValidationResult::Allowed => panic!("Should be blocked"),
    }
}

#[test]
fn test_command_validation_blocked_not_allowed() {
    let validator = CommandValidator::new();

    match validator.validate("malicious_command") {
        ValidationResult::Blocked { reason } => {
            assert!(reason.contains("不在允许列表中"));
        },
        ValidationResult::Allowed => panic!("Should be blocked"),
    }
}

#[test]
fn security_test_command_sanitization() {
    let validator = CommandValidator::new();
    let sanitized = validator.sanitize_command("ps aux; rm -rf /");
    assert_eq!(sanitized, "ps aux  rm -rf /");
}

#[test]
fn test_auth_token() {
    let now = Timestamp::from_secs(100_000);
    let token = AuthToken::new("test_token".to_string(), 3600, now);
    assert!(token.is_valid(now));
    assert!(token.matches("test_token", now));
    assert!(!token.matches("wrong_token", now));
}

#[test]
fn test_auth_header_validation() {
    assert!(validate_auth_header("Bearer test_token", "test_token"));
    assert!(!validate_auth_header("Bearer wrong_token", "test_token"));
    assert!(!validate_auth_header("Invalid format", "test_token"));
}

#[test]
fn command_length_boundary() {
    let validator = CommandValidator::new();
    let exactly_limit = format!("ls {}", "a".repeat(997));
    assert_eq!(exactly_limit.chars().count(), 1000);
    assert!(matches!(validator.validate(&exactly_limit), ValidationResult::Allowed));

    let over_limit = format!("ls {}", "a".repeat(998));
    assert_eq!(over_limit.chars().count(), 1001);
    let reason = reason_of(validator.validate(&over_limit));
    assert!(reason.contains("长度超过限制"));
}

#[test]
fn script_path_rules() {
    let validator = CommandValidator::new();
    assert!(matches!(
        validator.validate("/tmp/ops-scripts/health.sh"),
        ValidationResult::Allowed
    ));
    let reason = reason_of(validator.validate("relative/path.sh"));
    assert!(reason.contains("绝对路径"));
    let reason = reason_of(validator.validate("/tmp/ops-scripts/../etc/run.sh"));
    assert!(reason.contains("路径遍历"));
    let reason = reason_of(validator.validate("/etc/run.sh"));
    assert!(reason.contains("不在允许的目录中"));
    // The reason names the allowed directories.
    assert!(reason.contains("\"/opt/ops-scripts\", \"/usr/local/bin/scripts\""));
    assert!(reason.contains("\"/tmp/apps\"]"));
    let reason = reason_of(validator.validate("/tmp/ops-scripts/tool.exe"));
    assert!(reason.contains("不允许的脚本类型"));
    let reason = reason_of(validator.validate("/tmp/ops-scripts/noext"));
    assert!(reason.contains("必须有扩展名"));
}

#[test]
fn app_management_fast_path() {
    let validator = CommandValidator::new();
    assert!(matches!(
        validator.validate("cd /tmp/apps/demo && bash demo.sh start"),
        ValidationResult::Allowed
    ));
    let reason = reason_of(validator.validate("cd /tmp/apps/demo && bash demo.sh start && curl x"));
    assert!(reason.contains("危险操作"));
}

#[test]
fn predefined_commands_table() {
    let cmds = CommandValidator::get_predefined_commands();
    assert_eq!(cmds.len(), 25);
    assert_eq!(cmds[0].command, "ps aux");
    assert_eq!(cmds[24].command, "/tmp/ops-scripts/disk-usage.py");
}

#[test]
fn sanitization_replaces_substitution_characters() {
    let validator = CommandValidator::new();
    // Backtick, dollar and ampersand become spaces, like the separators.
    assert_eq!(validator.sanitize_command("a$b"), "a b");
    assert_eq!(validator.sanitize_command("echo `id`"), "echo  id");
    assert_eq!(validator.sanitize_command("sleep 1 & date"), "sleep 1   date");
    assert_eq!(validator.sanitize_command("a && b"), "a   b");
}

#[test]
fn unicode_whitespace_counts_as_blank() {
    let validator = CommandValidator::new();
    // A vertical tab or an ideographic space alone is an empty command.
    let reason = reason_of(validator.validate("\u{000B}"));
    assert!(reason.contains("空命令"));
    let reason = reason_of(validator.validate("\u{3000}\u{00A0}"));
    assert!(reason.contains("空命令"));
}
