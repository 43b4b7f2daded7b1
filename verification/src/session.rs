//! The library's model of agent session notifications.
//!
//! The agent connection delivers progress notifications while a prompt call
//! is in flight.  This module holds those notifications as plain values: the
//! closed set of update variants, their content blocks, tool-call data, plans
//! and advertised commands.  The boundary code that owns the agent connection
//! converts its wire types into these before handing them to the library.

use vstd::prelude::*;

verus! {

/// Lifecycle state of a tool call.
#[derive(Clone, Copy, PartialEq, Eq, Structural, Debug)]
pub enum ToolCallStatus {
    Pending,
    InProgress,
    Completed,
    Failed,
}

impl ToolCallStatus {
    /// The label under which this status appears in transcripts.
    pub open spec fn label_view(&self) -> Seq<char> {
        match self {
            ToolCallStatus::Pending => "Pending"@,
            ToolCallStatus::InProgress => "InProgress"@,
            ToolCallStatus::Completed => "Completed"@,
            ToolCallStatus::Failed => "Failed"@,
        }
    }

    pub fn label(&self) -> (r: String)
        ensures
            r@ == self.label_view(),
    {
        match self {
            ToolCallStatus::Pending => String::from_str("Pending"),
            ToolCallStatus::InProgress => String::from_str("InProgress"),
            ToolCallStatus::Completed => String::from_str("Completed"),
            ToolCallStatus::Failed => String::from_str("Failed"),
        }
    }
}

/// Completion state of one plan entry.
#[derive(Clone, Copy, PartialEq, Eq, Structural, Debug)]
pub enum PlanEntryStatus {
    Pending,
    InProgress,
    Completed,
}

impl PlanEntryStatus {
    /// The label under which this status appears in transcripts.
    pub open spec fn label_view(&self) -> Seq<char> {
        match self {
            PlanEntryStatus::Pending => "Pending"@,
            PlanEntryStatus::InProgress => "InProgress"@,
            PlanEntryStatus::Completed => "Completed"@,
        }
    }

    pub fn label(&self) -> (r: String)
        ensures
            r@ == self.label_view(),
    {
        match self {
            PlanEntryStatus::Pending => String::from_str("Pending"),
            PlanEntryStatus::InProgress => String::from_str("InProgress"),
            PlanEntryStatus::Completed => String::from_str("Completed"),
        }
    }
}

/// Priority of one plan entry.
#[derive(Clone, Copy, PartialEq, Eq, Structural, Debug)]
pub enum PlanEntryPriority {
    High,
    Medium,
    Low,
}

impl PlanEntryPriority {
    /// The label under which this priority appears in transcripts.
    pub open spec fn label_view(&self) -> Seq<char> {
        match self {
            PlanEntryPriority::High => "High"@,
            PlanEntryPriority::Medium => "Medium"@,
            PlanEntryPriority::Low => "Low"@,
        }
    }

    pub fn label(&self) -> (r: String)
        ensures
            r@ == self.label_view(),
    {
        match self {
            PlanEntryPriority::High => String::from_str("High"),
            PlanEntryPriority::Medium => String::from_str("Medium"),
            PlanEntryPriority::Low => String::from_str("Low"),
        }
    }
}

/// One block of message content, as plain values.
pub enum ContentBlock {
    Text { text: String },
    Image { uri: Option<String>, mime_type: String },
    Audio { mime_type: String },
    ResourceLink { description: Option<String>, title: Option<String>, uri: String },
    TextResource { text: String },
    BlobResource { uri: String },
}

#[verifier::ext_equal]
pub ghost enum ContentBlockView {
    Text { text: Seq<char> },
    Image { uri: Option<Seq<char>>, mime_type: Seq<char> },
    Audio { mime_type: Seq<char> },
    ResourceLink { description: Option<Seq<char>>, title: Option<Seq<char>>, uri: Seq<char> },
    TextResource { text: Seq<char> },
    BlobResource { uri: Seq<char> },
}

impl DeepView for ContentBlock {
    type V = ContentBlockView;

    open spec fn deep_view(&self) -> ContentBlockView {
        match self {
            ContentBlock::Text { text } => ContentBlockView::Text { text: text@ },
            ContentBlock::Image { uri, mime_type } => ContentBlockView::Image {
                uri: uri.deep_view(),
                mime_type: mime_type@,
            },
            ContentBlock::Audio { mime_type } => ContentBlockView::Audio { mime_type: mime_type@ },
            ContentBlock::ResourceLink { description, title, uri } => {
                ContentBlockView::ResourceLink {
                    description: description.deep_view(),
                    title: title.deep_view(),
                    uri: uri@,
                }
            },
            ContentBlock::TextResource { text } => ContentBlockView::TextResource { text: text@ },
            ContentBlock::BlobResource { uri } => ContentBlockView::BlobResource { uri: uri@ },
        }
    }
}

/// A tool call as first announced by the agent.
pub struct ToolCall {
    pub id: String,
    pub title: String,
    pub status: ToolCallStatus,
}

#[verifier::ext_equal]
pub ghost struct ToolCallView {
    pub id: Seq<char>,
    pub title: Seq<char>,
    pub status: ToolCallStatus,
}

impl DeepView for ToolCall {
    type V = ToolCallView;

    open spec fn deep_view(&self) -> ToolCallView {
        ToolCallView { id: self.id@, title: self.title@, status: self.status }
    }
}

/// One piece of content attached to a tool-call update.
pub enum ToolCallContent {
    Content { content: ContentBlock },
    Diff { path: String },
    Terminal { terminal_id: String },
}

#[verifier::ext_equal]
pub ghost enum ToolCallContentView {
    Content { content: ContentBlockView },
    Diff { path: Seq<char> },
    Terminal { terminal_id: Seq<char> },
}

impl DeepView for ToolCallContent {
    type V = ToolCallContentView;

    open spec fn deep_view(&self) -> ToolCallContentView {
        match self {
            ToolCallContent::Content { content } => ToolCallContentView::Content {
                content: content.deep_view(),
            },
            ToolCallContent::Diff { path } => ToolCallContentView::Diff { path: path@ },
            ToolCallContent::Terminal { terminal_id } => ToolCallContentView::Terminal {
                terminal_id: terminal_id@,
            },
        }
    }
}

/// The optional fields carried by a tool-call update.
pub struct ToolCallUpdateFields {
    pub status: Option<ToolCallStatus>,
    pub title: Option<String>,
    pub content: Option<Vec<ToolCallContent>>,
}

#[verifier::ext_equal]
pub ghost struct ToolCallUpdateFieldsView {
    pub status: Option<ToolCallStatus>,
    pub title: Option<Seq<char>>,
    pub content: Option<Seq<ToolCallContentView>>,
}

impl DeepView for ToolCallUpdateFields {
    type V = ToolCallUpdateFieldsView;

    open spec fn deep_view(&self) -> ToolCallUpdateFieldsView {
        ToolCallUpdateFieldsView {
            status: self.status,
            title: self.title.deep_view(),
            content: self.content.deep_view(),
        }
    }
}

/// A tool-call update notification.
pub struct ToolCallUpdate {
    pub id: String,
    pub fields: ToolCallUpdateFields,
}

#[verifier::ext_equal]
pub ghost struct ToolCallUpdateView {
    pub id: Seq<char>,
    pub fields: ToolCallUpdateFieldsView,
}

impl DeepView for ToolCallUpdate {
    type V = ToolCallUpdateView;

    open spec fn deep_view(&self) -> ToolCallUpdateView {
        ToolCallUpdateView { id: self.id@, fields: self.fields.deep_view() }
    }
}

/// One entry of an agent plan.
pub struct PlanEntry {
    pub content: String,
    pub priority: PlanEntryPriority,
    pub status: PlanEntryStatus,
}

#[verifier::ext_equal]
pub ghost struct PlanEntryView {
    pub content: Seq<char>,
    pub priority: PlanEntryPriority,
    pub status: PlanEntryStatus,
}

impl DeepView for PlanEntry {
    type V = PlanEntryView;

    open spec fn deep_view(&self) -> PlanEntryView {
        PlanEntryView { content: self.content@, priority: self.priority, status: self.status }
    }
}

/// An agent plan: ordered entries.
pub struct Plan {
    pub entries: Vec<PlanEntry>,
}

#[verifier::ext_equal]
pub ghost struct PlanView {
    pub entries: Seq<PlanEntryView>,
}

impl DeepView for Plan {
    type V = PlanView;

    open spec fn deep_view(&self) -> PlanView {
        PlanView { entries: self.entries.deep_view() }
    }
}

/// Input hint attached to an advertised command.
pub enum AvailableCommandInput {
    Unstructured { hint: String },
}

#[verifier::ext_equal]
pub ghost enum AvailableCommandInputView {
    Unstructured { hint: Seq<char> },
}

impl DeepView for AvailableCommandInput {
    type V = AvailableCommandInputView;

    open spec fn deep_view(&self) -> AvailableCommandInputView {
        match self {
            AvailableCommandInput::Unstructured { hint } => AvailableCommandInputView::Unstructured {
                hint: hint@,
            },
        }
    }
}

/// One command the agent advertises as available.
pub struct AvailableCommand {
    pub name: String,
    pub description: String,
    pub input: Option<AvailableCommandInput>,
}

#[verifier::ext_equal]
pub ghost struct AvailableCommandView {
    pub name: Seq<char>,
    pub description: Seq<char>,
    pub input: Option<AvailableCommandInputView>,
}

impl DeepView for AvailableCommand {
    type V = AvailableCommandView;

    open spec fn deep_view(&self) -> AvailableCommandView {
        AvailableCommandView {
            name: self.name@,
            description: self.description@,
            input: self.input.deep_view(),
        }
    }
}

/// The closed set of session update variants an agent can emit.
pub enum SessionUpdate {
    UserMessageChunk { content: ContentBlock },
    AgentMessageChunk { content: ContentBlock },
    AgentThoughtChunk { content: ContentBlock },
    ToolCall(ToolCall),
    ToolCallUpdate(ToolCallUpdate),
    Plan(Plan),
    AvailableCommandsUpdate { available_commands: Vec<AvailableCommand> },
    CurrentModeUpdate { current_mode_id: String },
}

#[verifier::ext_equal]
pub ghost enum SessionUpdateView {
    UserMessageChunk { content: ContentBlockView },
    AgentMessageChunk { content: ContentBlockView },
    AgentThoughtChunk { content: ContentBlockView },
    ToolCall { call: ToolCallView },
    ToolCallUpdate { update: ToolCallUpdateView },
    Plan { plan: PlanView },
    AvailableCommandsUpdate { available_commands: Seq<AvailableCommandView> },
    CurrentModeUpdate { current_mode_id: Seq<char> },
}

impl DeepView for SessionUpdate {
    type V = SessionUpdateView;

    open spec fn deep_view(&self) -> SessionUpdateView {
        match self {
            SessionUpdate::UserMessageChunk { content } => SessionUpdateView::UserMessageChunk {
                content: content.deep_view(),
            },
            SessionUpdate::AgentMessageChunk { content } => SessionUpdateView::AgentMessageChunk {
                content: content.deep_view(),
            },
            SessionUpdate::AgentThoughtChunk { content } => SessionUpdateView::AgentThoughtChunk {
                content: content.deep_view(),
            },
            SessionUpdate::ToolCall(call) => SessionUpdateView::ToolCall {
                call: call.deep_view(),
            },
            SessionUpdate::ToolCallUpdate(update) => SessionUpdateView::ToolCallUpdate {
                update: update.deep_view(),
            },
            SessionUpdate::Plan(plan) => SessionUpdateView::Plan { plan: plan.deep_view() },
            SessionUpdate::AvailableCommandsUpdate { available_commands } => {
                SessionUpdateView::AvailableCommandsUpdate {
                    available_commands: available_commands.deep_view(),
                }
            },
            SessionUpdate::CurrentModeUpdate { current_mode_id } => {
                SessionUpdateView::CurrentModeUpdate { current_mode_id: current_mode_id@ }
            },
        }
    }
}

/// One notification: which session it belongs to, and its update.
pub struct SessionNotification {
    pub session_id: String,
    pub update: SessionUpdate,
}

#[verifier::ext_equal]
pub ghost struct SessionNotificationView {
    pub session_id: Seq<char>,
    pub update: SessionUpdateView,
}

impl DeepView for SessionNotification {
    type V = SessionNotificationView;

    open spec fn deep_view(&self) -> SessionNotificationView {
        SessionNotificationView { session_id: self.session_id@, update: self.update.deep_view() }
    }
}

} // verus!
