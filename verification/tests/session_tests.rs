use connect_proxy::config::Config;
use connect_proxy::session::{
    response_established, response_forbidden, session_step, SessionAction, SessionEvent,
    SessionState, HTTP_BUFFER_SIZE,
};

fn plain_config(allowed: Vec<String>) -> Config {
    Config::new(
        String::from("127.0.0.1"),
        8080,
        allowed,
        false,
        None,
        None,
    )
    .unwrap()
}

fn fresh() -> SessionState {
    SessionState::Reading { buf: Vec::new() }
}

#[test]
fn allowed_connect_is_dialed_then_established() {
    let config = plain_config(vec![String::from("allowed.example.com:443")]);
    let req =
        b"CONNECT allowed.example.com:443 HTTP/1.1\r\nHost: allowed.example.com:443\r\n\r\n";
    // The request arrives in two reads.
    let (state, action) = session_step(
        &config,
        fresh(),
        SessionEvent::ClientBytes(req[..10].to_vec()),
    );
    assert!(matches!(action, SessionAction::ContinueReading));
    let (state, action) =
        session_step(&config, state, SessionEvent::ClientBytes(req[10..].to_vec()));
    match action {
        SessionAction::Dial(target) => assert_eq!(target, "allowed.example.com:443"),
        _ => panic!("expected a dial"),
    }
    assert!(matches!(state, SessionState::Dialing));
    let (state, action) = session_step(&config, state, SessionEvent::DialOutcome(true));
    assert!(matches!(action, SessionAction::RespondEstablished));
    assert!(matches!(state, SessionState::Relaying));
}

#[test]
fn target_off_the_allowlist_gets_forbidden() {
    let config = plain_config(vec![String::from("allowed.example.com:443")]);
    let req = b"CONNECT other.example.com:443 HTTP/1.1\r\nHost: other.example.com:443\r\n\r\n";
    let (state, action) =
        session_step(&config, fresh(), SessionEvent::ClientBytes(req.to_vec()));
    assert!(matches!(action, SessionAction::RespondForbidden));
    assert!(matches!(state, SessionState::Closed));
}

#[test]
fn non_connect_request_is_dropped_without_response() {
    let config = plain_config(vec![String::from("allowed.example.com:443")]);
    let req = b"GET / HTTP/1.1\r\n\r\n";
    let (state, action) =
        session_step(&config, fresh(), SessionEvent::ClientBytes(req.to_vec()));
    assert!(matches!(action, SessionAction::AbortNoResponse));
    assert!(matches!(state, SessionState::Closed));
}

#[test]
fn dial_failure_closes_without_response() {
    let config = plain_config(vec![String::from("unreachable.example.com:1")]);
    let req = b"CONNECT unreachable.example.com:1 HTTP/1.1\r\n\r\n";
    let (state, action) =
        session_step(&config, fresh(), SessionEvent::ClientBytes(req.to_vec()));
    assert!(matches!(action, SessionAction::Dial(_)));
    let (state, action) = session_step(&config, state, SessionEvent::DialOutcome(false));
    assert!(matches!(action, SessionAction::AbortNoResponse));
    assert!(matches!(state, SessionState::Closed));
}

#[test]
fn end_of_stream_before_terminator_aborts() {
    let config = plain_config(vec![]);
    let (state, action) = session_step(
        &config,
        fresh(),
        SessionEvent::ClientBytes(b"CONNECT a:1".to_vec()),
    );
    assert!(matches!(action, SessionAction::ContinueReading));
    // A zero-length read: the client closed before finishing the request.
    let (state, action) = session_step(&config, state, SessionEvent::ClientBytes(Vec::new()));
    assert!(matches!(action, SessionAction::AbortNoResponse));
    assert!(matches!(state, SessionState::Closed));
}

#[test]
fn full_buffer_without_terminator_aborts() {
    let config = plain_config(vec![]);
    // Fill the whole buffer with bytes that never terminate the header block.
    let chunk = vec![b'a'; HTTP_BUFFER_SIZE];
    let (state, action) = session_step(&config, fresh(), SessionEvent::ClientBytes(chunk));
    assert!(matches!(action, SessionAction::ContinueReading));
    match &state {
        SessionState::Reading { buf } => assert_eq!(buf.len(), HTTP_BUFFER_SIZE),
        _ => panic!("expected to still be reading"),
    }
    // No capacity is left, so the next read necessarily comes back empty.
    let (state, action) = session_step(&config, state, SessionEvent::ClientBytes(Vec::new()));
    assert!(matches!(action, SessionAction::AbortNoResponse));
    assert!(matches!(state, SessionState::Closed));
}

#[test]
fn terminator_split_across_reads_is_recognized() {
    let config = plain_config(vec![String::from("a:1")]);
    let (state, action) = session_step(
        &config,
        fresh(),
        SessionEvent::ClientBytes(b"CONNECT a:1 HTTP/1.1\r\n\r".to_vec()),
    );
    assert!(matches!(action, SessionAction::ContinueReading));
    let (state, action) =
        session_step(&config, state, SessionEvent::ClientBytes(b"\n".to_vec()));
    match action {
        SessionAction::Dial(target) => assert_eq!(target, "a:1"),
        _ => panic!("expected a dial"),
    }
    assert!(matches!(state, SessionState::Dialing));
}

#[test]
fn request_arriving_byte_by_byte_is_assembled() {
    let config = plain_config(vec![String::from("b:2")]);
    let req = b"CONNECT b:2 HTTP/1.0\r\n\r\n";
    let mut state = fresh();
    let mut dialed = None;
    for (i, byte) in req.iter().enumerate() {
        let (next, action) =
            session_step(&config, state, SessionEvent::ClientBytes(vec![*byte]));
        state = next;
        match action {
            SessionAction::ContinueReading => assert!(i + 1 < req.len()),
            SessionAction::Dial(target) => {
                assert_eq!(i + 1, req.len());
                dialed = Some(target);
            }
            _ => panic!("unexpected action"),
        }
    }
    assert_eq!(dialed.as_deref(), Some("b:2"));
}

#[test]
fn response_lines_are_exact() {
    assert_eq!(
        response_established(),
        "HTTP/1.0 200 Connection Established\r\n\r\n"
    );
    assert_eq!(response_forbidden(), "HTTP/1.0 403 Forbidden\r\n\r\n");
}
