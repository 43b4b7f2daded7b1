use kakoune_acp::daemon::{BusEvent, PromptRun, PromptStep};
use kakoune_acp::errors::BridgeError;
use kakoune_acp::ipc::{PromptPayload, StopReason, TranscriptEvent};
use kakoune_acp::session::{ContentBlock, Plan, PlanEntry, PlanEntryPriority, PlanEntryStatus,
    SessionNotification, SessionUpdate, ToolCall, ToolCallContent, ToolCallStatus, ToolCallUpdate,
    ToolCallUpdateFields};

fn payload(prompt: &str, context: &[&str]) -> PromptPayload {
    PromptPayload {
        prompt: prompt.to_string(),
        context: context.iter().map(|s| s.to_string()).collect(),
    }
}

fn matching(update: SessionUpdate) -> BusEvent {
    BusEvent::Notification(SessionNotification { session_id: "sess-1".to_string(), update })
}

fn text_block(text: &str) -> ContentBlock {
    ContentBlock::Text { text: text.to_string() }
}

#[test]
fn prompt_scenario_collects_rich_transcript() {
    let mut run = PromptRun::new("sess-1".to_string(), payload("Summarize X", &["note A"]));

    assert!(matches!(
        run.on_event(matching(SessionUpdate::AgentThoughtChunk {
            content: text_block("Thinking about: Summarize X"),
        })),
        PromptStep::Continue
    ));
    assert!(matches!(
        run.on_event(matching(SessionUpdate::Plan(Plan {
            entries: vec![
                PlanEntry {
                    content: "Read the provided context".to_string(),
                    priority: PlanEntryPriority::High,
                    status: PlanEntryStatus::InProgress,
                },
                PlanEntry {
                    content: "Draft a helpful response".to_string(),
                    priority: PlanEntryPriority::Medium,
                    status: PlanEntryStatus::Pending,
                },
            ],
        }))),
        PromptStep::Continue
    ));
    assert!(matches!(
        run.on_event(matching(SessionUpdate::ToolCall(ToolCall {
            id: "write_summary".to_string(),
            title: "Generate summary".to_string(),
            status: ToolCallStatus::InProgress,
        }))),
        PromptStep::Continue
    ));
    assert!(matches!(
        run.on_event(matching(SessionUpdate::ToolCallUpdate(ToolCallUpdate {
            id: "write_summary".to_string(),
            fields: ToolCallUpdateFields {
                status: Some(ToolCallStatus::Completed),
                title: None,
                content: Some(vec![ToolCallContent::Content {
                    content: text_block("Summary created"),
                }]),
            },
        }))),
        PromptStep::Continue
    ));

    let step = run.on_event(BusEvent::Resolved { stop_reason: StopReason::EndTurn });
    let result = match step {
        PromptStep::Done(result) => result,
        _ => panic!("expected the run to finish"),
    };
    assert_eq!(result.stop_reason, StopReason::EndTurn);
    assert_eq!(result.user_prompt, "Summarize X");
    assert_eq!(result.context, vec!["note A".to_string()]);
    assert_eq!(result.transcript.len(), 5);
    assert!(matches!(&result.transcript[0], TranscriptEvent::UserMessage { text } if text == "Summarize X"));
    assert!(matches!(&result.transcript[1], TranscriptEvent::AgentThought { .. }));
    match &result.transcript[2] {
        TranscriptEvent::Plan { entries } => assert_eq!(entries.len(), 2),
        _ => panic!("expected a plan event"),
    }
    assert!(matches!(&result.transcript[3], TranscriptEvent::ToolCall { .. }));
    match &result.transcript[4] {
        TranscriptEvent::ToolCallUpdate { status, .. } => {
            assert_eq!(status.as_deref(), Some("Completed"));
        },
        _ => panic!("expected a tool call update"),
    }
}

#[test]
fn notification_in_final_turn_is_not_lost() {
    let mut run = PromptRun::new("sess-1".to_string(), payload("p", &[]));
    run.on_event(matching(SessionUpdate::AgentMessageChunk { content: text_block("early") }));
    run.on_event(matching(SessionUpdate::AgentMessageChunk { content: text_block("last moment") }));
    let step = run.on_event(BusEvent::Resolved { stop_reason: StopReason::EndTurn });
    match step {
        PromptStep::Done(result) => {
            assert_eq!(result.transcript.len(), 3);
            assert!(matches!(
                &result.transcript[2],
                TranscriptEvent::AgentMessage { text } if text == "last moment"
            ));
        },
        _ => panic!("expected the run to finish"),
    }
}

#[test]
fn foreign_session_notifications_are_ignored() {
    let mut run = PromptRun::new("sess-1".to_string(), payload("p", &[]));
    let step = run.on_event(BusEvent::Notification(SessionNotification {
        session_id: "someone-else".to_string(),
        update: SessionUpdate::AgentMessageChunk { content: text_block("not ours") },
    }));
    assert!(matches!(step, PromptStep::Continue));
    match run.on_event(BusEvent::Resolved { stop_reason: StopReason::EndTurn }) {
        PromptStep::Done(result) => {
            assert_eq!(result.transcript.len(), 1);
            assert!(matches!(&result.transcript[0], TranscriptEvent::UserMessage { .. }));
        },
        _ => panic!("expected the run to finish"),
    }
}

#[test]
fn lag_is_tolerated_and_closed_bus_is_fatal() {
    let mut run = PromptRun::new("sess-1".to_string(), payload("p", &[]));
    assert!(matches!(run.on_event(BusEvent::Lagged { skipped: 17 }), PromptStep::Continue));
    match run.on_event(BusEvent::Closed) {
        PromptStep::Failed(BridgeError::ChannelClosed) => {},
        _ => panic!("a closed bus must fail the call"),
    }
}

#[test]
fn failed_call_surfaces_its_message() {
    let mut run = PromptRun::new("sess-1".to_string(), payload("p", &[]));
    match run.on_event(BusEvent::CallFailed { message: "agent rejected the prompt".to_string() }) {
        PromptStep::Failed(BridgeError::AgentCall { message }) => {
            assert_eq!(message, "agent rejected the prompt");
        },
        _ => panic!("a failed call must surface as an agent-call error"),
    }
    assert_eq!(
        BridgeError::ChannelClosed.message(),
        "session notification channel closed",
    );
}

#[test]
fn content_blocks_put_prompt_first_then_context_in_order() {
    let run = PromptRun::new(
        "sess-1".to_string(),
        payload("the prompt", &["first", "second"]),
    );
    let blocks = run.content_blocks();
    assert_eq!(
        blocks,
        vec!["the prompt".to_string(), "first".to_string(), "second".to_string()],
    );
}

#[test]
fn empty_prompt_is_not_seeded_into_transcript() {
    let mut run = PromptRun::new("sess-1".to_string(), payload("", &[]));
    match run.on_event(BusEvent::Resolved { stop_reason: StopReason::MaxTokens }) {
        PromptStep::Done(result) => {
            assert_eq!(result.transcript.len(), 0);
            assert_eq!(result.stop_reason, StopReason::MaxTokens);
        },
        _ => panic!("expected the run to finish"),
    }
}
