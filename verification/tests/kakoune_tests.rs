use kakoune_acp::dispatcher::{extract_text, modal_info_command, stop_reason_summary,
    ConversationLog};
use kakoune_acp::ipc::StopReason;
use kakoune_acp::kakoune::{format_info_command, kak_quote, resolve_socket_path,
    sanitize_session_name};
use kakoune_acp::session::ContentBlock;

#[test]
fn kak_quote_wraps_and_doubles_quotes() {
    assert_eq!(kak_quote("plain"), "'plain'");
    assert_eq!(kak_quote("it's"), "'it''s'");
    assert_eq!(kak_quote(""), "''");
    assert_eq!(kak_quote("''"), "''''''");
}

#[test]
fn info_command_with_and_without_client() {
    assert_eq!(
        format_info_command(None, "Title", "body"),
        "info -title 'Title' 'body'\n",
    );
    assert_eq!(
        format_info_command(Some("main"), "Integration Title", "=== Prompt ===\n"),
        "eval -client 'main' %{info -title 'Integration Title' '=== Prompt ===\n'\n}\n",
    );
}

#[test]
fn session_names_are_sanitized() {
    assert_eq!(sanitize_session_name("plain-Name_42"), "plain-Name_42");
    assert_eq!(sanitize_session_name("has space/and:colon"), "has_space_and_colon");
    assert_eq!(sanitize_session_name(""), "");
}

#[test]
fn socket_path_resolution() {
    assert_eq!(
        resolve_socket_path(Some("/explicit/path.sock".to_string()), Some("ignored"), "/run"),
        "/explicit/path.sock",
    );
    assert_eq!(
        resolve_socket_path(None, Some("my session"), "/run/user/1000"),
        "/run/user/1000/kakoune-acp/my_session.sock",
    );
    assert_eq!(
        resolve_socket_path(None, None, "/tmp"),
        "/tmp/kakoune-acp/default.sock",
    );
}

#[test]
fn dispatcher_quote_escapes_newlines_too() {
    assert_eq!(kakoune_acp::dispatcher::kak_quote("a'b"), "'a''b'");
    assert_eq!(kakoune_acp::dispatcher::kak_quote("two\nlines"), "'two\\nlines'");
}

#[test]
fn modal_info_command_shape() {
    assert_eq!(
        modal_info_command("client0", "Connecting to agent…"),
        "eval -client 'client0' %{ info -style modal -- 'Connecting to agent…' }\n",
    );
}

#[test]
fn stop_reason_summaries() {
    assert_eq!(stop_reason_summary(&StopReason::EndTurn), "Agent turn complete.");
    assert_eq!(
        stop_reason_summary(&StopReason::MaxTokens),
        "Agent stopped after reaching the configured token limit.",
    );
    assert_eq!(
        stop_reason_summary(&StopReason::MaxTurnRequests),
        "Agent stopped after reaching the maximum number of tool calls.",
    );
    assert_eq!(stop_reason_summary(&StopReason::Refusal), "Agent refused to continue.");
    assert_eq!(stop_reason_summary(&StopReason::Cancelled), "Agent run cancelled.");
}

#[test]
fn extract_text_per_block() {
    assert_eq!(extract_text(&ContentBlock::Text { text: "hello".to_string() }), "hello");
    assert_eq!(
        extract_text(&ContentBlock::ResourceLink {
            description: Some("d".to_string()),
            title: None,
            uri: "file:///r".to_string(),
        }),
        "Resource: file:///r",
    );
    assert_eq!(
        extract_text(&ContentBlock::Image { uri: None, mime_type: "image/png".to_string() }),
        "<image omitted>",
    );
    assert_eq!(
        extract_text(&ContentBlock::Audio { mime_type: "audio/wav".to_string() }),
        "<audio omitted>",
    );
    assert_eq!(
        extract_text(&ContentBlock::TextResource { text: "t".to_string() }),
        "<resource omitted>",
    );
    assert_eq!(
        extract_text(&ContentBlock::BlobResource { uri: "u".to_string() }),
        "<resource omitted>",
    );
}

#[test]
fn conversation_log_accumulates() {
    let mut log = ConversationLog::new();
    log.begin_conversation("sess-1");
    let shown = log.append_agent_message("Hello");
    assert_eq!(shown, "Session sess-1\nHello");
    let shown = log.append_agent_message(", world");
    assert_eq!(shown, "Session sess-1\nHello, world");
    log.begin_conversation("sess-2");
    let shown = log.append_agent_message("fresh");
    assert_eq!(shown, "Session sess-2\nfresh");
}
