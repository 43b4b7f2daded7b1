use kakoune_acp::codec::{decode_request, decode_response, encode_request, encode_response,
    encode_result_json, encode_status_json};
use kakoune_acp::ipc::{CommandSummary, DaemonRequest, DaemonResponse, DaemonStatus,
    PlanEntrySummary, PromptPayload, PromptResultPayload, StopReason, TranscriptEvent};

fn full_transcript() -> Vec<TranscriptEvent> {
    vec![
        TranscriptEvent::UserMessage { text: "ask \"things\"".to_string() },
        TranscriptEvent::AgentMessage { text: "line one\nline two".to_string() },
        TranscriptEvent::AgentThought { text: "tab\there".to_string() },
        TranscriptEvent::ToolCall {
            id: "tool-1".to_string(),
            title: "back\\slash".to_string(),
            status: "InProgress".to_string(),
        },
        TranscriptEvent::ToolCallUpdate {
            id: "tool-1".to_string(),
            status: Some("Completed".to_string()),
            message: None,
        },
        TranscriptEvent::Plan {
            entries: vec![PlanEntrySummary {
                status: "Pending".to_string(),
                priority: "High".to_string(),
                content: "unicode \u{00e9}\u{4e16}".to_string(),
            }],
        },
        TranscriptEvent::AvailableCommands {
            commands: vec![
                CommandSummary {
                    name: "apply".to_string(),
                    description: "Apply".to_string(),
                    hint: Some("hint".to_string()),
                },
                CommandSummary {
                    name: "drop".to_string(),
                    description: "Drop".to_string(),
                    hint: None,
                },
            ],
        },
        TranscriptEvent::SystemMessage { text: "control \u{0001} char".to_string() },
    ]
}

fn assert_events_equal(a: &TranscriptEvent, b: &TranscriptEvent) {
    let l = encode_response(&DaemonResponse::Prompt {
        result: PromptResultPayload {
            stop_reason: StopReason::EndTurn,
            user_prompt: String::new(),
            context: vec![],
            transcript: vec![clone_event(a)],
        },
    });
    let r = encode_response(&DaemonResponse::Prompt {
        result: PromptResultPayload {
            stop_reason: StopReason::EndTurn,
            user_prompt: String::new(),
            context: vec![],
            transcript: vec![clone_event(b)],
        },
    });
    assert_eq!(l, r);
}

fn clone_event(e: &TranscriptEvent) -> TranscriptEvent {
    e.clone()
}

#[test]
fn request_round_trip_all_variants() {
    let prompt = DaemonRequest::Prompt(PromptPayload {
        prompt: "Summarize \"X\"\nplease".to_string(),
        context: vec!["note A".to_string(), String::new()],
    });
    for request in [prompt, DaemonRequest::Status, DaemonRequest::Shutdown] {
        let line = encode_request(&request);
        let decoded = decode_request(&line).expect("an encoded request must decode");
        let again = encode_request(&decoded);
        assert_eq!(line, again);
    }
}

#[test]
fn request_wire_form_is_the_documented_json() {
    let line = encode_request(&DaemonRequest::Prompt(PromptPayload {
        prompt: "Summarize X".to_string(),
        context: vec!["note A".to_string()],
    }));
    assert_eq!(line, r#"{"type":"prompt","prompt":"Summarize X","context":["note A"]}"#);
    assert_eq!(encode_request(&DaemonRequest::Status), r#"{"type":"status"}"#);
    assert_eq!(encode_request(&DaemonRequest::Shutdown), r#"{"type":"shutdown"}"#);
}

#[test]
fn response_round_trip_with_full_transcript() {
    let response = DaemonResponse::Prompt {
        result: PromptResultPayload {
            stop_reason: StopReason::MaxTurnRequests,
            user_prompt: "prompt with control \u{0007} char".to_string(),
            context: vec!["a".to_string(), "b\"c".to_string()],
            transcript: full_transcript(),
        },
    };
    let line = encode_response(&response);
    let decoded = decode_response(&line).expect("an encoded response must decode");
    assert_eq!(encode_response(&decoded), line);
    match decoded {
        DaemonResponse::Prompt { result } => {
            assert_eq!(result.stop_reason, StopReason::MaxTurnRequests);
            assert_eq!(result.user_prompt, "prompt with control \u{0007} char");
            assert_eq!(result.context, vec!["a".to_string(), "b\"c".to_string()]);
            assert_eq!(result.transcript.len(), 8);
            for (original, parsed) in full_transcript().iter().zip(result.transcript.iter()) {
                assert_events_equal(original, parsed);
            }
        },
        _ => panic!("expected a prompt response"),
    }
}

#[test]
fn status_and_simple_responses_round_trip() {
    let status = DaemonStatus {
        session_id: Some("sess-1".to_string()),
        socket_path: "/run/user/1000/kakoune-acp/default.sock".to_string(),
        agent_command: vec!["mock-agent".to_string(), "--fast".to_string()],
        agent_pid: Some(4242),
        running: true,
    };
    let line = encode_response(&DaemonResponse::Status { status });
    let decoded = decode_response(&line).expect("status response must decode");
    match decoded {
        DaemonResponse::Status { status } => {
            assert_eq!(status.session_id.as_deref(), Some("sess-1"));
            assert_eq!(status.socket_path, "/run/user/1000/kakoune-acp/default.sock");
            assert_eq!(status.agent_command, vec!["mock-agent".to_string(), "--fast".to_string()]);
            assert_eq!(status.agent_pid, Some(4242));
            assert!(status.running);
        },
        _ => panic!("expected a status response"),
    }

    let ok_line = encode_response(&DaemonResponse::Acknowledged);
    assert_eq!(ok_line, r#"{"type":"ok"}"#);
    assert!(matches!(decode_response(&ok_line), Some(DaemonResponse::Acknowledged)));

    let err_line = encode_response(&DaemonResponse::Error { message: "boom".to_string() });
    assert_eq!(err_line, r#"{"type":"error","message":"boom"}"#);
    match decode_response(&err_line) {
        Some(DaemonResponse::Error { message }) => assert_eq!(message, "boom"),
        _ => panic!("expected an error response"),
    }
}

#[test]
fn absent_fields_encode_as_null() {
    let status = DaemonStatus {
        session_id: None,
        socket_path: "/tmp/x.sock".to_string(),
        agent_command: vec![],
        agent_pid: None,
        running: false,
    };
    let line = encode_status_json(&status);
    assert_eq!(
        line,
        r#"{"session_id":null,"socket_path":"/tmp/x.sock","agent_command":[],"agent_pid":null,"running":false}"#
    );
    let wrapped = encode_response(&DaemonResponse::Status { status });
    let decoded = decode_response(&wrapped).expect("status with nulls must decode");
    match decoded {
        DaemonResponse::Status { status } => {
            assert_eq!(status.session_id, None);
            assert_eq!(status.agent_pid, None);
            assert!(!status.running);
            assert!(status.agent_command.is_empty());
        },
        _ => panic!("expected a status response"),
    }
}

#[test]
fn pid_bounds_round_trip() {
    for pid in [0u32, 1, 9, 10, 4294967295] {
        let status = DaemonStatus {
            session_id: None,
            socket_path: "p".to_string(),
            agent_command: vec![],
            agent_pid: Some(pid),
            running: true,
        };
        let line = encode_response(&DaemonResponse::Status { status });
        match decode_response(&line) {
            Some(DaemonResponse::Status { status }) => assert_eq!(status.agent_pid, Some(pid)),
            _ => panic!("expected a status response"),
        }
    }
}

#[test]
fn malformed_lines_are_rejected() {
    assert!(decode_request("").is_none());
    assert!(decode_request("{\"type\":\"promp\"}").is_none());
    assert!(decode_request("{\"type\":\"status\"} trailing").is_none());
    assert!(decode_request("{\"type\":\"prompt\",\"prompt\":\"x\",\"context\":[]}extra").is_none());
    assert!(decode_request("{\"type\":\"prompt\",\"prompt\":\"unterminated").is_none());
    assert!(decode_response("").is_none());
    assert!(decode_response("{\"type\":\"ok\"").is_none());
    assert!(decode_response("{\"type\":\"error\",\"message\":\"bad \\q escape\"}").is_none());
    // an agent pid beyond the range of the field is malformed
    assert!(decode_response(
        "{\"type\":\"status\",\"status\":{\"session_id\":null,\"socket_path\":\"p\",\"agent_command\":[],\"agent_pid\":4294967296,\"running\":true}}"
    ).is_none());
}

#[test]
fn encoder_output_is_json_that_other_parsers_accept() {
    let response = DaemonResponse::Prompt {
        result: PromptResultPayload {
            stop_reason: StopReason::EndTurn,
            user_prompt: "Summarize \u{201c}X\u{201d}\n".to_string(),
            context: vec!["note A".to_string()],
            transcript: full_transcript(),
        },
    };
    let line = encode_response(&response);
    let value: serde_json::Value = serde_json::from_str(&line).expect("encoder must emit valid JSON");
    assert_eq!(value["type"], "prompt");
    assert_eq!(value["result"]["stop_reason"], "end_turn");
    assert_eq!(value["result"]["user_prompt"], "Summarize \u{201c}X\u{201d}\n");
    assert_eq!(value["result"]["context"][0], "note A");
    let transcript = value["result"]["transcript"].as_array().expect("transcript array");
    assert_eq!(transcript.len(), 8);
    assert_eq!(transcript[0]["kind"], "user_message");
    assert_eq!(transcript[1]["text"], "line one\nline two");
    assert_eq!(transcript[3]["kind"], "tool_call");
    assert_eq!(transcript[3]["title"], "back\\slash");
    assert_eq!(transcript[5]["entries"][0]["content"], "unicode \u{00e9}\u{4e16}");
    assert_eq!(transcript[7]["text"], "control \u{0001} char");

    let result_line = encode_result_json(match &response {
        DaemonResponse::Prompt { result } => result,
        _ => unreachable!(),
    });
    let value: serde_json::Value = serde_json::from_str(&result_line).expect("valid JSON");
    assert_eq!(value["stop_reason"], "end_turn");
}

#[test]
fn stop_reasons_keep_their_wire_words() {
    for (reason, word) in [
        (StopReason::EndTurn, "end_turn"),
        (StopReason::MaxTokens, "max_tokens"),
        (StopReason::MaxTurnRequests, "max_turn_requests"),
        (StopReason::Refusal, "refusal"),
        (StopReason::Cancelled, "cancelled"),
    ] {
        let result = PromptResultPayload {
            stop_reason: reason,
            user_prompt: String::new(),
            context: vec![],
            transcript: vec![],
        };
        let line = encode_result_json(&result);
        let value: serde_json::Value = serde_json::from_str(&line).unwrap();
        assert_eq!(value["stop_reason"], word);
        let wrapped = encode_response(&DaemonResponse::Prompt { result });
        match decode_response(&wrapped) {
            Some(DaemonResponse::Prompt { result }) => assert_eq!(result.stop_reason, reason),
            _ => panic!("expected a prompt response"),
        }
    }
}
