use kakoune_acp::codec::encode_response;
use kakoune_acp::daemon::{accept_step, apply_shutdown, dispatch_request, error_response,
    initial_status, mark_stopped, prompt_response, status_response, HandlerAction, ServerDecision,
    ServerEvent};
use kakoune_acp::errors::BridgeError;
use kakoune_acp::ipc::{DaemonRequest, DaemonResponse, PromptPayload, PromptResultPayload,
    StopReason};
use kakoune_acp::ipc_client::{classify_reply, expect_prompt, request_line};
use kakoune_acp::status::{expect_acknowledged, expect_status};

fn fresh_status() -> kakoune_acp::ipc::DaemonStatus {
    initial_status(
        "sess-1".to_string(),
        "/tmp/kakoune-acp/default.sock".to_string(),
        vec!["mock-agent".to_string()],
        Some(1234),
    )
}

#[test]
fn status_before_any_prompt_reports_running_session_and_pid() {
    let status = fresh_status();
    assert!(status.running);
    assert_eq!(status.session_id.as_deref(), Some("sess-1"));
    assert_eq!(status.agent_pid, Some(1234));
    assert_eq!(status.socket_path, "/tmp/kakoune-acp/default.sock");
    assert_eq!(status.agent_command, vec!["mock-agent".to_string()]);
}

#[test]
fn repeated_status_requests_are_byte_identical() {
    let status = fresh_status();
    let first = encode_response(&status_response(&status));
    let second = encode_response(&status_response(&status));
    assert_eq!(first, second);
    // the handler reads the record without changing it
    assert!(status.running);
    assert_eq!(status.session_id.as_deref(), Some("sess-1"));
}

#[test]
fn shutdown_clears_running_and_acknowledges() {
    let mut status = fresh_status();
    let response = apply_shutdown(&mut status);
    assert!(matches!(response, DaemonResponse::Acknowledged));
    assert!(!status.running);
    assert_eq!(status.session_id.as_deref(), Some("sess-1"));
    assert_eq!(status.agent_pid, Some(1234));

    let mut status = fresh_status();
    mark_stopped(&mut status);
    assert!(!status.running);
}

#[test]
fn requests_dispatch_to_their_handlers() {
    match dispatch_request(DaemonRequest::Prompt(PromptPayload {
        prompt: "p".to_string(),
        context: vec!["c".to_string()],
    })) {
        HandlerAction::RunPrompt(payload) => {
            assert_eq!(payload.prompt, "p");
            assert_eq!(payload.context, vec!["c".to_string()]);
        },
        _ => panic!("a prompt request must run a prompt"),
    }
    assert!(matches!(dispatch_request(DaemonRequest::Status), HandlerAction::ReportStatus));
    assert!(matches!(dispatch_request(DaemonRequest::Shutdown), HandlerAction::BeginShutdown));
}

#[test]
fn accept_loop_stops_on_shutdown_and_failure() {
    assert_eq!(accept_step(&ServerEvent::ShutdownRequested), ServerDecision::Stop);
    assert_eq!(accept_step(&ServerEvent::ClientAccepted), ServerDecision::HandleClient);
    assert_eq!(accept_step(&ServerEvent::AcceptFailed), ServerDecision::Stop);
}

#[test]
fn failures_become_single_error_responses() {
    let response = error_response(BridgeError::AgentCall { message: "call failed".to_string() });
    match response {
        DaemonResponse::Error { message } => assert_eq!(message, "call failed"),
        _ => panic!("expected an error response"),
    }
    let response = error_response(BridgeError::ChannelClosed);
    match response {
        DaemonResponse::Error { message } => {
            assert_eq!(message, "session notification channel closed");
        },
        _ => panic!("expected an error response"),
    }
}

#[test]
fn client_round_trip_through_the_codec() {
    let line = request_line(&DaemonRequest::Status);
    assert_eq!(line, r#"{"type":"status"}"#);

    let status = fresh_status();
    let reply_line = encode_response(&status_response(&status));
    let reply = match classify_reply(Some(&reply_line)) {
        Ok(reply) => reply,
        Err(_) => panic!("a valid reply must classify"),
    };
    match expect_status(reply) {
        Ok(parsed) => {
            assert_eq!(parsed.session_id.as_deref(), Some("sess-1"));
            assert!(parsed.running);
        },
        Err(_) => panic!("a status reply must carry the record"),
    }
}

#[test]
fn closed_connection_and_garbage_are_protocol_errors() {
    match classify_reply(None) {
        Err(BridgeError::Protocol { message }) => {
            assert_eq!(message, "daemon closed the connection");
        },
        _ => panic!("a closed connection must be a protocol error"),
    }
    match classify_reply(Some("not json at all")) {
        Err(BridgeError::Protocol { message }) => {
            assert_eq!(message, "invalid response from daemon");
        },
        _ => panic!("garbage must be a protocol error"),
    }
}

#[test]
fn reply_expectations_classify_every_shape() {
    let result = PromptResultPayload {
        stop_reason: StopReason::EndTurn,
        user_prompt: "p".to_string(),
        context: vec![],
        transcript: vec![],
    };
    assert!(expect_prompt(prompt_response(result)).is_ok());
    match expect_prompt(DaemonResponse::Acknowledged) {
        Err(message) => assert_eq!(message, "unexpected daemon response"),
        Ok(_) => panic!("an acknowledgement is not a prompt result"),
    }
    match expect_prompt(DaemonResponse::Error { message: "no".to_string() }) {
        Err(message) => assert_eq!(message, "no"),
        Ok(_) => panic!("an error reply is not a prompt result"),
    }
    assert!(expect_acknowledged(DaemonResponse::Acknowledged).is_ok());
    assert_eq!(
        expect_acknowledged(DaemonResponse::Error { message: "down".to_string() }).unwrap_err(),
        "down",
    );
    let status = fresh_status();
    match expect_status(DaemonResponse::Status { status }) {
        Ok(parsed) => assert_eq!(parsed.agent_pid, Some(1234)),
        Err(_) => panic!("a status reply must carry the record"),
    }
    match expect_status(DaemonResponse::Acknowledged) {
        Err(message) => assert_eq!(message, "unexpected daemon response"),
        Ok(_) => panic!("an acknowledgement is not a status"),
    }
}

#[test]
fn error_messages_name_each_failure_class() {
    assert_eq!(
        BridgeError::Launch { message: "failed to launch agent".to_string() }.message(),
        "failed to launch agent",
    );
    assert_eq!(BridgeError::Io { message: "stream broken".to_string() }.message(), "stream broken");
    assert_eq!(
        BridgeError::Connect { message: "failed to connect to socket".to_string() }.message(),
        "failed to connect to socket",
    );
    assert_eq!(
        BridgeError::Protocol { message: "bad line".to_string() }.message(),
        "bad line",
    );
}
