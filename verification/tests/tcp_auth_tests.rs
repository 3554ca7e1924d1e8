use ops_core::tcp_auth::{TcpAuthMessage, TcpAuthenticator, constant_time_compare};

#[test]
fn test_tcp_authentication_flow() {
    let shared_secret = "test-secret-key-123";
    let server_auth = TcpAuthenticator::new(shared_secret.to_string());
    let client_auth = TcpAuthenticator::new(shared_secret.to_string());

    let now = 1_000_000u64;
    let challenge = TcpAuthenticator::generate_challenge(now);
    if let TcpAuthMessage::Challenge { nonce, timestamp } = &challenge {
        let response = client_auth
            .generate_response("test-client-id".to_string(), nonce.clone(), *timestamp, now)
            .unwrap();

        let is_valid = server_auth.verify_response(&response, nonce, *timestamp, now).unwrap();
        assert!(is_valid, "Authentication should succeed with correct credentials");
    } else {
        panic!("Challenge message should be of Challenge type");
    }
}

#[test]
fn test_authentication_with_wrong_secret() {
    let server_auth = TcpAuthenticator::new("server-secret".to_string());
    let client_auth = TcpAuthenticator::new("wrong-secret".to_string());

    let now = 1_000_000u64;
    let challenge = TcpAuthenticator::generate_challenge(now);
    if let TcpAuthMessage::Challenge { nonce, timestamp } = &challenge {
        let response = client_auth
            .generate_response("test-client-id".to_string(), nonce.clone(), *timestamp, now)
            .unwrap();

        let is_valid = server_auth.verify_response(&response, nonce, *timestamp, now).unwrap();
        assert!(!is_valid, "Authentication should fail with wrong secret");
    }
}

#[test]
fn test_constant_time_compare() {
    assert!(constant_time_compare("hello", "hello"));
    assert!(!constant_time_compare("hello", "world"));
    assert!(!constant_time_compare("hello", "hello!"));
    assert!(!constant_time_compare("", "hello"));
}

#[test]
fn auth_timestamp_boundary() {
    let auth = TcpAuthenticator::new("k".to_string());
    let response = auth
        .generate_response("a1".to_string(), "n".to_string(), 1000, 1000)
        .unwrap();

    // A response stamped at 1000 is exactly 60 seconds old at 1060: accepted.
    assert!(auth.verify_response(&response, "n", 1000, 1060).unwrap());
    // One second later it is 61 seconds old: rejected.
    assert!(!auth.verify_response(&response, "n", 1000, 1061).unwrap());
}

#[test]
fn auth_happy_path_literals() {
    // Secret "k", agent "a1", challenge nonce "n" issued at 1000; the agent
    // answers at 1005 and the server verifies at 1010.
    let auth = TcpAuthenticator::new("k".to_string());
    let response = auth
        .generate_response("a1".to_string(), "n".to_string(), 1000, 1005)
        .unwrap();
    if let TcpAuthMessage::Response { client_id, nonce, response_hash, timestamp } = &response {
        assert_eq!(client_id, "a1");
        assert_eq!(nonce, "n");
        assert_eq!(*timestamp, 1005);

        // The tag is HMAC-SHA256 over the ASCII of "a1" ++ "n" ++ "1000".
        let mut mac =
            <hmac::Hmac<sha2::Sha256> as hmac::Mac>::new_from_slice(b"k").unwrap();
        hmac::Mac::update(&mut mac, b"a1n1000");
        let expected = hex::encode(hmac::Mac::finalize(mac).into_bytes());
        assert_eq!(response_hash, &expected);
    } else {
        panic!("expected a response message");
    }
    assert!(auth.verify_response(&response, "n", 1000, 1010).unwrap());
}

#[test]
fn auth_stale_response_rejected() {
    // Nonce "n", issued at 1000, answered at 1000 but only received at 1065:
    // 65 seconds old, so the server rejects it.
    let auth = TcpAuthenticator::new("k".to_string());
    let response = auth
        .generate_response("a1".to_string(), "n".to_string(), 1000, 1000)
        .unwrap();
    assert!(!auth.verify_response(&response, "n", 1000, 1065).unwrap());
}

#[test]
fn auth_nonce_mismatch_rejected() {
    let auth = TcpAuthenticator::new("k".to_string());
    let response = auth
        .generate_response("a1".to_string(), "other".to_string(), 1000, 1005)
        .unwrap();
    assert!(!auth.verify_response(&response, "n", 1000, 1010).unwrap());
}

#[test]
fn stale_challenge_refused_by_agent() {
    let auth = TcpAuthenticator::new("k".to_string());
    assert!(auth.generate_response("a1".to_string(), "n".to_string(), 1000, 1030).is_ok());
    let e = auth.generate_response("a1".to_string(), "n".to_string(), 1000, 1031);
    assert_eq!(e.unwrap_err(), "Challenge timestamp too old");
}
