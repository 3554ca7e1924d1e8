use ops_core::codec::{Frame, broadcast_line, encode_frame, parse_frame};
use ops_core::command_results::CommandStatus;
use ops_core::handle_socket::{ConnectionHandler, ConnectionState};
use ops_core::model::{HostInfo, Timestamp};
use ops_core::security::CommandValidator;
use ops_core::shared_data::{DispatchError, SharedData};
use ops_core::tcp_auth::{TcpAuthMessage, TcpAuthenticator};

fn chars_of(s: &str) -> Vec<char> {
    s.trim_end_matches('\n').chars().collect()
}

fn host() -> HostInfo {
    HostInfo {
        hostname: "h".to_string(),
        cpu_model: "c".to_string(),
        cpu_usage_centi: 100,
        total_memory: 1,
        free_memory: 1,
        used_memory: 0,
        ip_addresses: vec![],
    }
}

fn client_info_line(id: &str, agent_secs: u64) -> String {
    encode_frame(&Frame::ClientInfo {
        client_id: id.to_string(),
        system_info: host(),
        version_info: vec![],
        app_info: vec![],
        last_seen: Timestamp::from_secs(agent_secs),
    })
}

#[test]
fn attach_counts_and_cap() {
    let mut shared: SharedData<u32> = SharedData::new(2);
    assert!(shared.add_client_connection("a1".to_string(), 1).is_ok());
    assert_eq!(shared.connections_len(), 1);
    // Replacing a known id keeps the count.
    assert!(shared.add_client_connection("a1".to_string(), 2).is_ok());
    assert_eq!(shared.connections_len(), 1);
    assert_eq!(shared.get_connection("a1"), Some(&2));
    assert!(shared.add_client_connection("a2".to_string(), 3).is_ok());
    assert_eq!(shared.connections_len(), 2);
    // A fresh id beyond the cap is refused; a known one still replaces.
    let e = shared.add_client_connection("a3".to_string(), 4).unwrap_err();
    assert_eq!(e, "Maximum connections reached: 2");
    assert!(shared.add_client_connection("a2".to_string(), 5).is_ok());

    shared.remove_client_connection("a1");
    assert_eq!(shared.connections_len(), 1);
    shared.remove_client_connection("missing");
    assert_eq!(shared.connections_len(), 1);
}

#[test]
fn heartbeat_upserts_with_server_clock() {
    let mut shared: SharedData<u32> = SharedData::new(10);
    let (mut handler, hello) = ConnectionHandler::on_connect(false, "s".to_string(), 0);
    assert!(hello.is_none());
    assert!(matches!(handler.state, ConnectionState::Authenticated));

    let server_now = Timestamp::from_secs(7777);
    let line = client_info_line("a1", 1234);
    let out = handler.process_line(&mut shared, &chars_of(&line), 1u32, server_now);
    assert_eq!(out.reply.as_deref(), Some("ACK\n"));
    assert!(!out.close);

    // The server's stamp wins over the agent's own.
    let st = shared.get_state("a1").unwrap();
    assert_eq!(st.last_seen.secs, 7777);
    assert_eq!(shared.connections_len(), 1);
}

#[test]
fn noise_lines_change_nothing() {
    let mut shared: SharedData<u32> = SharedData::new(10);
    let (mut handler, _) = ConnectionHandler::on_connect(false, "s".to_string(), 0);
    let now = Timestamp::from_secs(1);
    for line in ["", "CMD:c1::ls", "garbage", "{\"data_type\":\"nope\"}"] {
        let out = handler.process_line(&mut shared, &chars_of(line), 1u32, now);
        assert!(out.reply.is_none());
        assert!(!out.close);
    }
    assert_eq!(shared.connections_len(), 0);
    assert_eq!(shared.states_len(), 0);
}

#[test]
fn authentication_happy_path_through_engine() {
    let mut shared: SharedData<u32> = SharedData::new(10);
    let (mut handler, challenge_line) = ConnectionHandler::on_connect(true, "k".to_string(), 1000);
    let challenge_line = challenge_line.expect("a challenge goes out");
    let (nonce, timestamp) = match parse_frame(&chars_of(&challenge_line)) {
        Some(Frame::AuthChallenge { nonce, timestamp }) => (nonce, timestamp),
        _ => panic!("challenge frame expected"),
    };
    assert_eq!(timestamp, 1000);
    assert!(matches!(handler.state, ConnectionState::Connected));

    // A heartbeat before authentication is dropped.
    let early = handler.process_line(
        &mut shared,
        &chars_of(&client_info_line("a1", 1)),
        1u32,
        Timestamp::from_secs(1005),
    );
    assert!(early.reply.is_none());
    assert_eq!(shared.connections_len(), 0);

    let agent = TcpAuthenticator::new("k".to_string());
    let response = agent
        .generate_response("a1".to_string(), nonce.clone(), timestamp, 1005)
        .unwrap();
    let line = match &response {
        TcpAuthMessage::Response { client_id, nonce, response_hash, timestamp } => {
            encode_frame(&Frame::AuthResponse {
                client_id: client_id.clone(),
                nonce: nonce.clone(),
                response_hash: response_hash.clone(),
                timestamp: *timestamp,
            })
        },
        _ => panic!(),
    };
    let out = handler.process_line(&mut shared, &chars_of(&line), 9u32, Timestamp::from_secs(1010));
    assert!(out.reply.unwrap().contains("\"success\":true"));
    assert!(!out.close);
    assert!(matches!(handler.state, ConnectionState::Authenticated));
    assert_eq!(handler.client_id, "a1");
    assert_eq!(shared.get_connection("a1"), Some(&9));
}

#[test]
fn authentication_stale_response_closes() {
    let mut shared: SharedData<u32> = SharedData::new(10);
    let (mut handler, challenge_line) = ConnectionHandler::on_connect(true, "k".to_string(), 1000);
    let (nonce, timestamp) = match parse_frame(&chars_of(&challenge_line.unwrap())) {
        Some(Frame::AuthChallenge { nonce, timestamp }) => (nonce, timestamp),
        _ => panic!(),
    };
    let agent = TcpAuthenticator::new("k".to_string());
    let response = agent
        .generate_response("a1".to_string(), nonce, timestamp, 1004)
        .unwrap();
    let line = match &response {
        TcpAuthMessage::Response { client_id, nonce, response_hash, timestamp } => {
            encode_frame(&Frame::AuthResponse {
                client_id: client_id.clone(),
                nonce: nonce.clone(),
                response_hash: response_hash.clone(),
                timestamp: *timestamp,
            })
        },
        _ => panic!(),
    };
    // Received 61 seconds after the agent stamped it: rejected and closed.
    let out = handler.process_line(&mut shared, &chars_of(&line), 9u32, Timestamp::from_secs(1065));
    assert!(out.reply.unwrap().contains("\"success\":false"));
    assert!(out.close);
    assert!(matches!(handler.state, ConnectionState::AuthFailed));
    assert_eq!(shared.connections_len(), 0);
}

#[test]
fn dispatch_and_reply() {
    let mut shared: SharedData<u32> = SharedData::new(10);
    let validator = CommandValidator::new();
    shared.add_client_connection("a1".to_string(), 1).unwrap();

    let now = Timestamp::from_secs(1000);
    let (command_id, line) = shared
        .prepare_dispatch(&validator, "a1", "ls -la", now)
        .expect("policy passes and the agent is connected");
    assert_eq!(line, format!("CMD:{}::ls -la\n", command_id));
    assert!(shared.finish_dispatch(&command_id));

    // The agent answers; the reply is filed and correlated by id.
    let (mut handler, _) = ConnectionHandler::on_connect(false, "s".to_string(), 0);
    let reply = encode_frame(&Frame::CommandResponse {
        command_id: command_id.clone(),
        client_id: "a1".to_string(),
        command: "ls -la".to_string(),
        output: "total 0\n".to_string(),
        error_output: String::new(),
        exit_code: 0,
        executed_at: Timestamp::from_secs(1001),
    });
    let out = handler.process_line(&mut shared, &chars_of(&reply), 1u32, Timestamp::from_secs(1002));
    assert!(out.reply.is_none());

    match shared.command_results.get_command_status(&command_id) {
        Some(CommandStatus::Completed(r)) => {
            assert_eq!(r.output, "total 0\n");
            assert_eq!(r.exit_code, 0);
            assert_eq!(r.received_at.secs, 1002);
        },
        other => panic!("expected Completed, got {:?}", other),
    }
}

#[test]
fn dispatch_policy_veto_leaves_no_trace() {
    let mut shared: SharedData<u32> = SharedData::new(10);
    let validator = CommandValidator::new();
    shared.add_client_connection("a1".to_string(), 1).unwrap();

    let e = shared
        .prepare_dispatch(&validator, "a1", "rm -rf /tmp", Timestamp::from_secs(1000))
        .unwrap_err();
    match e {
        DispatchError::Blocked { reason } => assert!(reason.contains("危险模式")),
        DispatchError::NotConnected => panic!("policy should veto first"),
    }
    assert_eq!(shared.command_results.get_stats(), (0, 0));
}

#[test]
fn dispatch_to_absent_agent() {
    let mut shared: SharedData<u32> = SharedData::new(10);
    let validator = CommandValidator::new();
    let e = shared
        .prepare_dispatch(&validator, "ghost", "ls", Timestamp::from_secs(1000))
        .unwrap_err();
    assert!(matches!(e, DispatchError::NotConnected));
    assert_eq!(shared.command_results.get_stats(), (0, 0));
}

#[test]
fn broadcast_reaches_every_connection() {
    let mut shared: SharedData<u32> = SharedData::new(10);
    for (i, id) in ["a1", "a2", "a3"].iter().enumerate() {
        shared.add_client_connection(id.to_string(), i as u32).unwrap();
    }
    let line = broadcast_line("hello");
    assert_eq!(line, "BROADCAST::hello\n");

    // The caller writes the same line to each handle the registry exposes.
    let mut seen: Vec<String> = Vec::new();
    for i in 0..shared.connections_len() {
        let (id, _handle) = shared.connection_at(i);
        seen.push(id.clone());
    }
    seen.sort();
    assert_eq!(seen, vec!["a1", "a2", "a3"]);
}

#[test]
fn expiry_sweep_detaches() {
    let mut shared: SharedData<u32> = SharedData::new(10);
    let (mut handler, _) = ConnectionHandler::on_connect(false, "s".to_string(), 0);
    let t = 1000u64;
    handler.process_line(
        &mut shared,
        &chars_of(&client_info_line("a1", 1)),
        1u32,
        Timestamp::from_secs(t),
    );
    handler.process_line(
        &mut shared,
        &chars_of(&client_info_line("a2", 1)),
        2u32,
        Timestamp::from_secs(t + 20),
    );
    assert_eq!(shared.connections_len(), 2);

    // At T+35 with a 30-second timeout, a1 expires; a2 was seen 15s ago.
    shared.cleanup_expired_clients(30, Timestamp::from_secs(t + 35));
    assert!(shared.get_state("a1").is_none());
    assert!(shared.get_connection("a1").is_none());
    assert!(shared.get_state("a2").is_some());
    assert_eq!(shared.connections_len(), 1);
}

#[test]
fn capacity_rejection_over_engine() {
    let mut shared: SharedData<u32> = SharedData::new(1);
    let (mut handler, _) = ConnectionHandler::on_connect(false, "s".to_string(), 0);
    let now = Timestamp::from_secs(1);
    handler.process_line(&mut shared, &chars_of(&client_info_line("a1", 1)), 1u32, now);
    let out = handler.process_line(&mut shared, &chars_of(&client_info_line("a2", 1)), 2u32, now);
    assert_eq!(out.reply.as_deref(), Some("CONNECTION_REJECTED: Too many connections\n"));
    assert!(out.close);
    assert_eq!(shared.connections_len(), 1);
}

#[test]
fn disconnect_detaches() {
    let mut shared: SharedData<u32> = SharedData::new(10);
    let (mut handler, _) = ConnectionHandler::on_connect(false, "s".to_string(), 0);
    handler.process_line(
        &mut shared,
        &chars_of(&client_info_line("a1", 1)),
        1u32,
        Timestamp::from_secs(1),
    );
    assert_eq!(shared.connections_len(), 1);
    handler.on_disconnect(&mut shared);
    assert_eq!(shared.connections_len(), 0);
    // State lingers until the sweep takes it.
    assert!(shared.get_state("a1").is_some());
}
