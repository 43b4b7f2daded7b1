use kakoune_acp::cli::{PromptOptions, PromptOutput};
use kakoune_acp::ipc::{CommandSummary, DaemonStatus, PlanEntrySummary, PromptResultPayload,
    StopReason, TranscriptEvent};
use kakoune_acp::prompt::{choose_prompt_source, combine_context, kak_delivery_command,
    prompt_is_blank, render_plain_text, render_prompt_output, PromptSource};
use kakoune_acp::status::render_status_plain;

fn options(output: PromptOutput) -> PromptOptions {
    PromptOptions {
        socket: None,
        prompt: None,
        prompt_file: None,
        context: vec![],
        session: None,
        client: None,
        output,
        title: "Agent Response".to_string(),
        send_to_kak: false,
    }
}

fn sample_result() -> PromptResultPayload {
    PromptResultPayload {
        stop_reason: StopReason::EndTurn,
        user_prompt: "Summarise the important context  \n".to_string(),
        context: vec!["Important context from the project".to_string()],
        transcript: vec![
            TranscriptEvent::UserMessage { text: "Summarise the important context".to_string() },
            TranscriptEvent::AgentThought { text: "Thinking about it".to_string() },
            TranscriptEvent::Plan {
                entries: vec![PlanEntrySummary {
                    status: "InProgress".to_string(),
                    priority: "High".to_string(),
                    content: "Read the provided context".to_string(),
                }],
            },
            TranscriptEvent::AvailableCommands {
                commands: vec![CommandSummary {
                    name: "apply_suggestion".to_string(),
                    description: "Apply the generated response".to_string(),
                    hint: Some("Type edits".to_string()),
                }],
            },
            TranscriptEvent::ToolCall {
                id: "write_summary".to_string(),
                title: "Generate summary".to_string(),
                status: "InProgress".to_string(),
            },
            TranscriptEvent::ToolCallUpdate {
                id: "write_summary".to_string(),
                status: Some("Completed".to_string()),
                message: Some("Generated summary".to_string()),
            },
            TranscriptEvent::SystemMessage { text: "Current mode: writer".to_string() },
            TranscriptEvent::AgentMessage { text: "Here is your concise summary.".to_string() },
        ],
    }
}

#[test]
fn plain_rendering_matches_expected_report() {
    let text = render_plain_text(&sample_result());
    let expected = "=== Prompt ===\n\
        Summarise the important context\n\
        \n[context #1]\n\
        Important context from the project\n\
        \n\
        [user] Summarise the important context\n\
        [thought] Thinking about it\n\
        [plan]\n  - (InProgress/High) Read the provided context\n\
        [commands]\n  - apply_suggestion: Apply the generated response\n      hint: Type edits\n\
        [tool write_summary] InProgress: Generate summary\n\
        [tool write_summary] Completed\nGenerated summary\n\
        [system] Current mode: writer\n\
        [agent] Here is your concise summary.\n\
        \nStop reason: EndTurn\n";
    assert_eq!(text, expected);
}

#[test]
fn tool_update_without_status_prints_update() {
    let result = PromptResultPayload {
        stop_reason: StopReason::Refusal,
        user_prompt: "p".to_string(),
        context: vec![],
        transcript: vec![TranscriptEvent::ToolCallUpdate {
            id: "t".to_string(),
            status: None,
            message: None,
        }],
    };
    let text = render_plain_text(&result);
    assert!(text.contains("[tool t] update\n"));
    assert!(text.ends_with("Stop reason: Refusal\n"));
}

#[test]
fn context_snippets_keep_their_own_trailing_newline() {
    let result = PromptResultPayload {
        stop_reason: StopReason::EndTurn,
        user_prompt: "p".to_string(),
        context: vec!["ends with newline\n".to_string(), "bare".to_string()],
        transcript: vec![],
    };
    let text = render_plain_text(&result);
    assert!(text.contains("\n[context #1]\nends with newline\n\n[context #2]\nbare\n"));
}

#[test]
fn output_modes_render_plain_json_and_kak_commands() {
    let result = sample_result();
    let plain = render_prompt_output(&options(PromptOutput::Plain), &result);
    assert!(plain.starts_with("=== Prompt ===\n"));

    let json = render_prompt_output(&options(PromptOutput::Json), &result);
    let value: serde_json::Value = serde_json::from_str(&json).expect("json output must parse");
    assert_eq!(value["stop_reason"], "end_turn");
    assert_eq!(value["transcript"].as_array().unwrap().len(), 8);

    let mut opts = options(PromptOutput::KakCommands);
    opts.client = Some("main".to_string());
    opts.title = "Integration Title".to_string();
    let command = render_prompt_output(&opts, &result);
    assert!(command.starts_with("eval -client 'main' %{"));
    assert!(command.contains("info -title 'Integration Title'"));
    assert!(command.contains("=== Prompt ==="));
}

#[test]
fn sending_to_kakoune_requires_a_session() {
    let opts = options(PromptOutput::Plain);
    assert!(kak_delivery_command(&opts, "body").is_none());
    let mut opts = options(PromptOutput::Plain);
    opts.session = Some("acp-test".to_string());
    opts.client = Some("main".to_string());
    let command = kak_delivery_command(&opts, "body").expect("a session makes delivery possible");
    assert!(command.starts_with("eval -client 'main' %{"));
}

#[test]
fn blank_prompts_are_detected() {
    assert!(prompt_is_blank(""));
    assert!(prompt_is_blank("  \t\r\n"));
    assert!(!prompt_is_blank(" x "));
}

#[test]
fn prompt_source_priority() {
    let mut opts = options(PromptOutput::Plain);
    opts.prompt = Some("inline".to_string());
    opts.prompt_file = Some("/tmp/p.txt".to_string());
    assert_eq!(choose_prompt_source(&opts, true), PromptSource::Inline);
    opts.prompt = None;
    assert_eq!(choose_prompt_source(&opts, true), PromptSource::FromFile);
    opts.prompt_file = None;
    assert_eq!(choose_prompt_source(&opts, false), PromptSource::FromStdin);
    assert_eq!(choose_prompt_source(&opts, true), PromptSource::Missing);
}

#[test]
fn context_flags_come_before_file_contents() {
    let combined = combine_context(
        &vec!["flag one".to_string(), "flag two".to_string()],
        vec!["file one".to_string()],
    );
    assert_eq!(
        combined,
        vec!["flag one".to_string(), "flag two".to_string(), "file one".to_string()],
    );
}

#[test]
fn status_plain_report() {
    let status = DaemonStatus {
        session_id: Some("sess-1".to_string()),
        socket_path: "/tmp/default.sock".to_string(),
        agent_command: vec!["mock-agent".to_string(), "--fast".to_string()],
        agent_pid: Some(907),
        running: true,
    };
    assert_eq!(
        render_status_plain(&status),
        "Socket: /tmp/default.sock\nSession ID: sess-1\nAgent running: true\nAgent PID: 907\nAgent command: mock-agent --fast\n",
    );
    let bare = DaemonStatus {
        session_id: None,
        socket_path: "/tmp/default.sock".to_string(),
        agent_command: vec![],
        agent_pid: None,
        running: false,
    };
    assert_eq!(
        render_status_plain(&bare),
        "Socket: /tmp/default.sock\nAgent running: false\n",
    );
}
