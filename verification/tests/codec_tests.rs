use ops_core::codec::{
    Frame, LineBuffer, ack_line, broadcast_line, cmd_line, encode_auth_message, encode_frame,
    parse_auth_message, parse_frame, rejected_line,
};
use ops_core::handle_socket::decode_line;
use ops_core::model::{AppInfo, HostInfo, ServiceStatus, Timestamp, VersionInfo};
use ops_core::tcp_auth::TcpAuthMessage;

fn chars_of(s: &str) -> Vec<char> {
    s.chars().collect()
}

fn roundtrip(f: &Frame) -> Frame {
    let line = encode_frame(f);
    let parsed = parse_frame(&chars_of(&line)).expect("frame should parse back");
    // Re-encoding must give back the identical line.
    assert_eq!(encode_frame(&parsed), line);
    parsed
}

fn sample_host() -> HostInfo {
    HostInfo {
        hostname: "test-host".to_string(),
        cpu_model: "test-cpu".to_string(),
        cpu_usage_centi: 5025,
        total_memory: 8_000_000_000,
        free_memory: 4_000_000_000,
        used_memory: 4_000_000_000,
        ip_addresses: vec!["127.0.0.1/8".to_string(), "10.0.0.2/24".to_string()],
    }
}

#[test]
fn client_info_round_trip() {
    let frame = Frame::ClientInfo {
        client_id: "test-client-123".to_string(),
        system_info: sample_host(),
        version_info: vec![VersionInfo {
            app: "test-app".to_string(),
            created_time: "2024-01-01T00:00:00Z".to_string(),
        }],
        app_info: vec![
            AppInfo {
                name: "demo".to_string(),
                version: "v1.0.0".to_string(),
                deploy_time: "2025-08-29 14:30:25".to_string(),
                branch: Some("main".to_string()),
                commit: None,
                service_status: ServiceStatus::Running("4242".to_string()),
            },
            AppInfo {
                name: "other".to_string(),
                version: "unknown".to_string(),
                deploy_time: "unknown".to_string(),
                branch: None,
                commit: Some("abc123".to_string()),
                service_status: ServiceStatus::Stopped,
            },
        ],
        last_seen: Timestamp::new(1_724_899_200, 500),
    };
    match roundtrip(&frame) {
        Frame::ClientInfo { client_id, system_info, version_info, app_info, last_seen } => {
            assert_eq!(client_id, "test-client-123");
            assert_eq!(system_info.hostname, "test-host");
            assert_eq!(system_info.cpu_usage_centi, 5025);
            assert_eq!(version_info.len(), 1);
            assert_eq!(version_info[0].app, "test-app");
            assert_eq!(app_info.len(), 2);
            assert_eq!(app_info[0].branch.as_deref(), Some("main"));
            assert!(matches!(app_info[0].service_status, ServiceStatus::Running(_)));
            assert!(app_info[1].branch.is_none());
            assert_eq!(last_seen.secs, 1_724_899_200);
            assert_eq!(last_seen.nanos, 500);
        },
        _ => panic!("wrong variant"),
    }
}

#[test]
fn command_response_round_trip() {
    let frame = Frame::CommandResponse {
        command_id: "cmd-123".to_string(),
        client_id: "test-client-123".to_string(),
        command: "whoami".to_string(),
        output: "root\n".to_string(),
        error_output: "a \"quoted\" \\ backslash\ttab".to_string(),
        exit_code: -1,
        executed_at: Timestamp::from_secs(1_724_899_200),
    };
    match roundtrip(&frame) {
        Frame::CommandResponse { output, error_output, exit_code, .. } => {
            assert_eq!(output, "root\n");
            assert_eq!(error_output, "a \"quoted\" \\ backslash\ttab");
            assert_eq!(exit_code, -1);
        },
        _ => panic!("wrong variant"),
    }
}

#[test]
fn auth_frames_round_trip() {
    roundtrip(&Frame::AuthChallenge { nonce: "n".to_string(), timestamp: 1000 });
    roundtrip(&Frame::AuthResponse {
        client_id: "a1".to_string(),
        nonce: "n".to_string(),
        response_hash: "00ff".to_string(),
        timestamp: 1005,
    });
    roundtrip(&Frame::AuthResult { success: true, message: "Authentication successful".to_string() });
    roundtrip(&Frame::AuthResult { success: false, message: "Authentication failed".to_string() });
}

#[test]
fn auth_messages_round_trip() {
    for m in [
        TcpAuthMessage::Challenge { nonce: "n".to_string(), timestamp: 1000 },
        TcpAuthMessage::Response {
            client_id: "a1".to_string(),
            nonce: "n".to_string(),
            response_hash: "beef".to_string(),
            timestamp: 1005,
        },
        TcpAuthMessage::AuthResult { success: true, message: "ok".to_string() },
    ] {
        let line = encode_auth_message(&m);
        let parsed = parse_auth_message(&chars_of(&line)).expect("message should parse back");
        assert_eq!(encode_auth_message(&parsed), line);
    }
}

#[test]
fn wire_shapes_are_exact() {
    let line = encode_frame(&Frame::AuthChallenge { nonce: "n".to_string(), timestamp: 1000 });
    assert_eq!(line, "{\"data_type\":\"auth_challenge\",\"nonce\":\"n\",\"timestamp\":1000}");
    let line = encode_auth_message(&TcpAuthMessage::Challenge {
        nonce: "n".to_string(),
        timestamp: 1000,
    });
    assert_eq!(line, "{\"auth_type\":\"challenge\",\"nonce\":\"n\",\"timestamp\":1000}");
}

#[test]
fn unicode_escape_parses() {
    // \u0041 denotes 'A'; the seconds-only stamp form is also accepted.
    let line = "{\"data_type\":\"auth_response\",\"client_id\":\"\\u0041x\",\"nonce\":\"\\n\",\"response_hash\":\"00\",\"timestamp\":7}";
    match parse_frame(&chars_of(line)) {
        Some(Frame::AuthResponse { client_id, nonce, timestamp, .. }) => {
            assert_eq!(client_id, "Ax");
            assert_eq!(nonce, "\n");
            assert_eq!(timestamp, 7);
        },
        _ => panic!("should parse"),
    }
}

#[test]
fn malformed_lines_are_dropped() {
    assert!(parse_frame(&chars_of("")).is_none());
    assert!(parse_frame(&chars_of("not json")).is_none());
    assert!(parse_frame(&chars_of("{\"data_type\":\"unknown\"}")).is_none());
    // Trailing garbage after a complete frame is refused.
    assert!(parse_frame(&chars_of(
        "{\"data_type\":\"auth_challenge\",\"nonce\":\"n\",\"timestamp\":1000}x"
    ))
    .is_none());
}

#[test]
fn legacy_lines() {
    assert_eq!(cmd_line("c1", "ls -la"), "CMD:c1::ls -la\n");
    assert_eq!(broadcast_line("hello"), "BROADCAST::hello\n");
    assert_eq!(ack_line(), "ACK\n");
    assert_eq!(rejected_line(), "CONNECTION_REJECTED: Too many connections\n");
}

#[test]
fn line_buffer_framing() {
    let mut buf = LineBuffer::new();
    let mut lines: Vec<Vec<u8>> = Vec::new();
    for b in b"ab\r\ncd\nrest" {
        if let Some(line) = buf.push_byte(*b) {
            lines.push(line);
        }
    }
    assert_eq!(lines, vec![b"ab".to_vec(), b"cd".to_vec()]);
    assert_eq!(buf.take_remainder(), b"rest".to_vec());
    assert_eq!(buf.take_remainder(), Vec::<u8>::new());
}

#[test]
fn utf8_lines_decode() {
    assert_eq!(
        decode_line(&"状态".as_bytes().to_vec()),
        Some("状态".chars().collect::<Vec<char>>())
    );
    assert!(decode_line(&vec![0xffu8, 0xfe]).is_none());
}
