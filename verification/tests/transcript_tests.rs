use kakoune_acp::ipc::TranscriptEvent;
use kakoune_acp::session::{AvailableCommand, AvailableCommandInput, ContentBlock, Plan, PlanEntry,
    PlanEntryPriority, PlanEntryStatus, SessionNotification, SessionUpdate, ToolCall,
    ToolCallContent, ToolCallStatus, ToolCallUpdate, ToolCallUpdateFields};
use kakoune_acp::transcript::{render_content, summarize_tool_call_update, TranscriptCollector};

fn note(update: SessionUpdate) -> SessionNotification {
    SessionNotification { session_id: "s1".to_string(), update }
}

fn text_block(text: &str) -> ContentBlock {
    ContentBlock::Text { text: text.to_string() }
}

#[test]
fn every_update_variant_maps_to_exactly_one_event() {
    let mut collector = TranscriptCollector::new();
    collector.record_notification(note(SessionUpdate::UserMessageChunk {
        content: text_block("u"),
    }));
    collector.record_notification(note(SessionUpdate::AgentMessageChunk {
        content: text_block("a"),
    }));
    collector.record_notification(note(SessionUpdate::AgentThoughtChunk {
        content: text_block("t"),
    }));
    collector.record_notification(note(SessionUpdate::ToolCall(ToolCall {
        id: "tool-1".to_string(),
        title: "Do a thing".to_string(),
        status: ToolCallStatus::InProgress,
    })));
    collector.record_notification(note(SessionUpdate::ToolCallUpdate(ToolCallUpdate {
        id: "tool-1".to_string(),
        fields: ToolCallUpdateFields { status: Some(ToolCallStatus::Completed), title: None, content: None },
    })));
    collector.record_notification(note(SessionUpdate::Plan(Plan {
        entries: vec![PlanEntry {
            content: "step one".to_string(),
            priority: PlanEntryPriority::High,
            status: PlanEntryStatus::Pending,
        }],
    })));
    collector.record_notification(note(SessionUpdate::AvailableCommandsUpdate {
        available_commands: vec![AvailableCommand {
            name: "apply_suggestion".to_string(),
            description: "Apply it".to_string(),
            input: Some(AvailableCommandInput::Unstructured { hint: "edits".to_string() }),
        }],
    }));
    collector.record_notification(note(SessionUpdate::CurrentModeUpdate {
        current_mode_id: "writer".to_string(),
    }));

    let events = collector.finish();
    assert_eq!(events.len(), 8);
    assert!(matches!(&events[0], TranscriptEvent::UserMessage { text } if text == "u"));
    assert!(matches!(&events[1], TranscriptEvent::AgentMessage { text } if text == "a"));
    assert!(matches!(&events[2], TranscriptEvent::AgentThought { text } if text == "t"));
    match &events[3] {
        TranscriptEvent::ToolCall { id, title, status } => {
            assert_eq!(id, "tool-1");
            assert_eq!(title, "Do a thing");
            assert_eq!(status, "InProgress");
        },
        other => panic!("expected a tool call event, got {:?}", core::mem::discriminant(other)),
    }
    match &events[4] {
        TranscriptEvent::ToolCallUpdate { id, status, message } => {
            assert_eq!(id, "tool-1");
            assert_eq!(status.as_deref(), Some("Completed"));
            assert_eq!(*message, None);
        },
        _ => panic!("expected a tool call update event"),
    }
    match &events[5] {
        TranscriptEvent::Plan { entries } => {
            assert_eq!(entries.len(), 1);
            assert_eq!(entries[0].status, "Pending");
            assert_eq!(entries[0].priority, "High");
            assert_eq!(entries[0].content, "step one");
        },
        _ => panic!("expected a plan event"),
    }
    match &events[6] {
        TranscriptEvent::AvailableCommands { commands } => {
            assert_eq!(commands.len(), 1);
            assert_eq!(commands[0].name, "apply_suggestion");
            assert_eq!(commands[0].description, "Apply it");
            assert_eq!(commands[0].hint.as_deref(), Some("edits"));
        },
        _ => panic!("expected an available-commands event"),
    }
    assert!(
        matches!(&events[7], TranscriptEvent::SystemMessage { text } if text == "Current mode: writer")
    );
}

#[test]
fn collector_preserves_arrival_order() {
    let mut collector = TranscriptCollector::new();
    for i in 0..5 {
        collector.record_notification(note(SessionUpdate::AgentMessageChunk {
            content: text_block(&format!("chunk {i}")),
        }));
    }
    let events = collector.finish();
    assert_eq!(events.len(), 5);
    for (i, event) in events.iter().enumerate() {
        match event {
            TranscriptEvent::AgentMessage { text } => assert_eq!(text, &format!("chunk {i}")),
            _ => panic!("expected agent messages in order"),
        }
    }
}

#[test]
fn empty_user_prompt_is_not_seeded() {
    let mut collector = TranscriptCollector::new();
    collector.push_user_prompt(String::new());
    assert_eq!(collector.finish().len(), 0);

    let mut collector = TranscriptCollector::new();
    collector.push_user_prompt("hello".to_string());
    let events = collector.finish();
    assert_eq!(events.len(), 1);
    assert!(matches!(&events[0], TranscriptEvent::UserMessage { text } if text == "hello"));
}

#[test]
fn tool_call_update_joins_title_and_content() {
    let event = summarize_tool_call_update(ToolCallUpdate {
        id: "write_summary".to_string(),
        fields: ToolCallUpdateFields {
            status: Some(ToolCallStatus::Completed),
            title: Some("Generated summary".to_string()),
            content: Some(vec![
                ToolCallContent::Content { content: text_block("Summary created") },
                ToolCallContent::Diff { path: "notes.txt".to_string() },
                ToolCallContent::Terminal { terminal_id: "term-9".to_string() },
            ]),
        },
    });
    match event {
        TranscriptEvent::ToolCallUpdate { id, status, message } => {
            assert_eq!(id, "write_summary");
            assert_eq!(status.as_deref(), Some("Completed"));
            assert_eq!(
                message.as_deref(),
                Some("Generated summary\nSummary created\ndiff for notes.txt\nterminal term-9"),
            );
        },
        _ => panic!("expected a tool call update event"),
    }
}

#[test]
fn tool_call_update_without_parts_has_no_message() {
    let event = summarize_tool_call_update(ToolCallUpdate {
        id: "t".to_string(),
        fields: ToolCallUpdateFields { status: None, title: None, content: None },
    });
    match event {
        TranscriptEvent::ToolCallUpdate { status, message, .. } => {
            assert_eq!(status, None);
            assert_eq!(message, None);
        },
        _ => panic!("expected a tool call update event"),
    }
}

#[test]
fn render_content_falls_back_per_variant() {
    assert_eq!(render_content(text_block("plain")), "plain");
    assert_eq!(
        render_content(ContentBlock::Image { uri: Some("file:///x.png".to_string()), mime_type: "image/png".to_string() }),
        "file:///x.png",
    );
    assert_eq!(
        render_content(ContentBlock::Image { uri: None, mime_type: "image/png".to_string() }),
        "<image:image/png>",
    );
    assert_eq!(
        render_content(ContentBlock::Audio { mime_type: "audio/wav".to_string() }),
        "<audio:audio/wav>",
    );
    assert_eq!(
        render_content(ContentBlock::ResourceLink {
            description: Some("described".to_string()),
            title: Some("titled".to_string()),
            uri: "file:///r".to_string(),
        }),
        "described",
    );
    assert_eq!(
        render_content(ContentBlock::ResourceLink {
            description: None,
            title: Some("titled".to_string()),
            uri: "file:///r".to_string(),
        }),
        "titled",
    );
    assert_eq!(
        render_content(ContentBlock::ResourceLink {
            description: None,
            title: None,
            uri: "file:///r".to_string(),
        }),
        "<resource:file:///r>",
    );
    assert_eq!(
        render_content(ContentBlock::TextResource { text: "embedded".to_string() }),
        "embedded",
    );
    assert_eq!(
        render_content(ContentBlock::BlobResource { uri: "file:///b".to_string() }),
        "<resource:file:///b>",
    );
}
