//! Data model of the daemon's local IPC protocol: requests, responses, the
//! daemon status record, and normalized transcript events.
//!
//! Each executable type has a ghost view (`DeepView`) whose fields are
//! mathematical sequences; every contract in the crate speaks of those views.

use vstd::prelude::*;

verus! {

/// Reason the agent reported for ending a prompt turn.
#[derive(Clone, Copy, PartialEq, Eq, Structural, Debug)]
pub enum StopReason {
    EndTurn,
    MaxTokens,
    MaxTurnRequests,
    Refusal,
    Cancelled,
}

/// One prompt submission: the prompt text and ordered context snippets.
#[verifier::ext_equal]
pub struct PromptPayload {
    pub prompt: String,
    pub context: Vec<String>,
}

#[verifier::ext_equal]
pub ghost struct PromptPayloadView {
    pub prompt: Seq<char>,
    pub context: Seq<Seq<char>>,
}

impl DeepView for PromptPayload {
    type V = PromptPayloadView;

    open spec fn deep_view(&self) -> PromptPayloadView {
        PromptPayloadView { prompt: self.prompt@, context: self.context.deep_view() }
    }
}

impl Clone for PromptPayload {
    fn clone(&self) -> (r: Self)
        ensures
            r.deep_view() == self.deep_view(),
    {
        let r = PromptPayload { prompt: self.prompt.clone(), context: clone_strings(&self.context) };
        proof {
            assert(r.deep_view() =~= self.deep_view());
        }
        r
    }
}

/// A request a client sends to the daemon: exactly one per connection.
#[verifier::ext_equal]
pub enum DaemonRequest {
    Prompt(PromptPayload),
    Status,
    Shutdown,
}

#[verifier::ext_equal]
pub ghost enum DaemonRequestView {
    Prompt { payload: PromptPayloadView },
    Status,
    Shutdown,
}

impl DeepView for DaemonRequest {
    type V = DaemonRequestView;

    open spec fn deep_view(&self) -> DaemonRequestView {
        match self {
            DaemonRequest::Prompt(payload) => DaemonRequestView::Prompt {
                payload: payload.deep_view(),
            },
            DaemonRequest::Status => DaemonRequestView::Status,
            DaemonRequest::Shutdown => DaemonRequestView::Shutdown,
        }
    }
}

/// An entry of a plan notification, with its status and priority rendered
/// as label strings.
pub struct PlanEntrySummary {
    pub status: String,
    pub priority: String,
    pub content: String,
}

#[verifier::ext_equal]
pub ghost struct PlanEntrySummaryView {
    pub status: Seq<char>,
    pub priority: Seq<char>,
    pub content: Seq<char>,
}

impl DeepView for PlanEntrySummary {
    type V = PlanEntrySummaryView;

    open spec fn deep_view(&self) -> PlanEntrySummaryView {
        PlanEntrySummaryView {
            status: self.status@,
            priority: self.priority@,
            content: self.content@,
        }
    }
}

impl Clone for PlanEntrySummary {
    fn clone(&self) -> (r: Self)
        ensures
            r == *self,
    {
        PlanEntrySummary {
            status: self.status.clone(),
            priority: self.priority.clone(),
            content: self.content.clone(),
        }
    }
}

/// One command the agent advertises as available.
pub struct CommandSummary {
    pub name: String,
    pub description: String,
    pub hint: Option<String>,
}

#[verifier::ext_equal]
pub ghost struct CommandSummaryView {
    pub name: Seq<char>,
    pub description: Seq<char>,
    pub hint: Option<Seq<char>>,
}

impl DeepView for CommandSummary {
    type V = CommandSummaryView;

    open spec fn deep_view(&self) -> CommandSummaryView {
        CommandSummaryView {
            name: self.name@,
            description: self.description@,
            hint: self.hint.deep_view(),
        }
    }
}

impl Clone for CommandSummary {
    fn clone(&self) -> (r: Self)
        ensures
            r == *self,
    {
        CommandSummary {
            name: self.name.clone(),
            description: self.description.clone(),
            hint: clone_opt_string(&self.hint),
        }
    }
}

/// A normalized, transport-independent projection of one session
/// notification (or of the original prompt text).
#[verifier::ext_equal]
pub enum TranscriptEvent {
    UserMessage { text: String },
    AgentMessage { text: String },
    AgentThought { text: String },
    ToolCall { id: String, title: String, status: String },
    ToolCallUpdate { id: String, status: Option<String>, message: Option<String> },
    Plan { entries: Vec<PlanEntrySummary> },
    AvailableCommands { commands: Vec<CommandSummary> },
    SystemMessage { text: String },
}

#[verifier::ext_equal]
pub ghost enum TranscriptEventView {
    UserMessage { text: Seq<char> },
    AgentMessage { text: Seq<char> },
    AgentThought { text: Seq<char> },
    ToolCall { id: Seq<char>, title: Seq<char>, status: Seq<char> },
    ToolCallUpdate { id: Seq<char>, status: Option<Seq<char>>, message: Option<Seq<char>> },
    Plan { entries: Seq<PlanEntrySummaryView> },
    AvailableCommands { commands: Seq<CommandSummaryView> },
    SystemMessage { text: Seq<char> },
}

impl DeepView for TranscriptEvent {
    type V = TranscriptEventView;

    open spec fn deep_view(&self) -> TranscriptEventView {
        match self {
            TranscriptEvent::UserMessage { text } => TranscriptEventView::UserMessage {
                text: text@,
            },
            TranscriptEvent::AgentMessage { text } => TranscriptEventView::AgentMessage {
                text: text@,
            },
            TranscriptEvent::AgentThought { text } => TranscriptEventView::AgentThought {
                text: text@,
            },
            TranscriptEvent::ToolCall { id, title, status } => TranscriptEventView::ToolCall {
                id: id@,
                title: title@,
                status: status@,
            },
            TranscriptEvent::ToolCallUpdate { id, status, message } => {
                TranscriptEventView::ToolCallUpdate {
                    id: id@,
                    status: status.deep_view(),
                    message: message.deep_view(),
                }
            },
            TranscriptEvent::Plan { entries } => TranscriptEventView::Plan {
                entries: entries.deep_view(),
            },
            TranscriptEvent::AvailableCommands { commands } => {
                TranscriptEventView::AvailableCommands { commands: commands.deep_view() }
            },
            TranscriptEvent::SystemMessage { text } => TranscriptEventView::SystemMessage {
                text: text@,
            },
        }
    }
}

impl Clone for TranscriptEvent {
    fn clone(&self) -> (r: Self)
        ensures
            r.deep_view() == self.deep_view(),
    {
        let r = match self {
            TranscriptEvent::UserMessage { text } => TranscriptEvent::UserMessage {
                text: text.clone(),
            },
            TranscriptEvent::AgentMessage { text } => TranscriptEvent::AgentMessage {
                text: text.clone(),
            },
            TranscriptEvent::AgentThought { text } => TranscriptEvent::AgentThought {
                text: text.clone(),
            },
            TranscriptEvent::ToolCall { id, title, status } => TranscriptEvent::ToolCall {
                id: id.clone(),
                title: title.clone(),
                status: status.clone(),
            },
            TranscriptEvent::ToolCallUpdate { id, status, message } => {
                TranscriptEvent::ToolCallUpdate {
                    id: id.clone(),
                    status: clone_opt_string(status),
                    message: clone_opt_string(message),
                }
            },
            TranscriptEvent::Plan { entries } => TranscriptEvent::Plan {
                entries: clone_plan_entries(entries),
            },
            TranscriptEvent::AvailableCommands { commands } => TranscriptEvent::AvailableCommands {
                commands: clone_commands(commands),
            },
            TranscriptEvent::SystemMessage { text } => TranscriptEvent::SystemMessage {
                text: text.clone(),
            },
        };
        proof {
            assert(r.deep_view() =~= self.deep_view());
        }
        r
    }
}

/// The correlated outcome of one prompt call.
#[verifier::ext_equal]
pub struct PromptResultPayload {
    pub stop_reason: StopReason,
    pub user_prompt: String,
    pub context: Vec<String>,
    pub transcript: Vec<TranscriptEvent>,
}

#[verifier::ext_equal]
pub ghost struct PromptResultPayloadView {
    pub stop_reason: StopReason,
    pub user_prompt: Seq<char>,
    pub context: Seq<Seq<char>>,
    pub transcript: Seq<TranscriptEventView>,
}

impl DeepView for PromptResultPayload {
    type V = PromptResultPayloadView;

    open spec fn deep_view(&self) -> PromptResultPayloadView {
        PromptResultPayloadView {
            stop_reason: self.stop_reason,
            user_prompt: self.user_prompt@,
            context: self.context.deep_view(),
            transcript: self.transcript.deep_view(),
        }
    }
}

/// The daemon's shared status record.
#[verifier::ext_equal]
pub struct DaemonStatus {
    pub session_id: Option<String>,
    pub socket_path: String,
    pub agent_command: Vec<String>,
    pub agent_pid: Option<u32>,
    pub running: bool,
}

#[verifier::ext_equal]
pub ghost struct DaemonStatusView {
    pub session_id: Option<Seq<char>>,
    pub socket_path: Seq<char>,
    pub agent_command: Seq<Seq<char>>,
    pub agent_pid: Option<u32>,
    pub running: bool,
}

impl DeepView for DaemonStatus {
    type V = DaemonStatusView;

    open spec fn deep_view(&self) -> DaemonStatusView {
        DaemonStatusView {
            session_id: self.session_id.deep_view(),
            socket_path: self.socket_path@,
            agent_command: self.agent_command.deep_view(),
            agent_pid: self.agent_pid,
            running: self.running,
        }
    }
}

impl Clone for DaemonStatus {
    fn clone(&self) -> (r: Self)
        ensures
            r.deep_view() == self.deep_view(),
    {
        let r = DaemonStatus {
            session_id: clone_opt_string(&self.session_id),
            socket_path: self.socket_path.clone(),
            agent_command: clone_strings(&self.agent_command),
            agent_pid: if let Some(pid) = self.agent_pid {
                Some(pid)
            } else {
                None
            },
            running: self.running,
        };
        proof {
            assert(r.deep_view() =~= self.deep_view());
        }
        r
    }
}

/// The daemon's answer to a request: exactly one per connection.
#[verifier::ext_equal]
pub enum DaemonResponse {
    Prompt { result: PromptResultPayload },
    Status { status: DaemonStatus },
    Acknowledged,
    Error { message: String },
}

#[verifier::ext_equal]
pub ghost enum DaemonResponseView {
    Prompt { result: PromptResultPayloadView },
    Status { status: DaemonStatusView },
    Acknowledged,
    Error { message: Seq<char> },
}

impl DeepView for DaemonResponse {
    type V = DaemonResponseView;

    open spec fn deep_view(&self) -> DaemonResponseView {
        match self {
            DaemonResponse::Prompt { result } => DaemonResponseView::Prompt {
                result: result.deep_view(),
            },
            DaemonResponse::Status { status } => DaemonResponseView::Status {
                status: status.deep_view(),
            },
            DaemonResponse::Acknowledged => DaemonResponseView::Acknowledged,
            DaemonResponse::Error { message } => DaemonResponseView::Error { message: message@ },
        }
    }
}

/// Clones a vector of strings, preserving contents and order.
pub fn clone_strings(v: &Vec<String>) -> (r: Vec<String>)
    ensures
        r@ == v@,
{
    let mut r: Vec<String> = Vec::new();
    let mut i: usize = 0;
    while i < v.len()
        invariant
            i <= v.len(),
            r@ =~= v@.take(i as int),
        decreases v.len() - i,
    {
        r.push(v[i].clone());
        i = i + 1;
    }
    proof {
        assert(r@ =~= v@);
    }
    r
}

/// Clones an optional string, preserving presence and contents.
pub fn clone_opt_string(v: &Option<String>) -> (r: Option<String>)
    ensures
        r == *v,
{
    match v {
        Some(s) => Some(s.clone()),
        None => None,
    }
}

fn clone_plan_entries(v: &Vec<PlanEntrySummary>) -> (r: Vec<PlanEntrySummary>)
    ensures
        r@ == v@,
{
    let mut r: Vec<PlanEntrySummary> = Vec::new();
    let mut i: usize = 0;
    while i < v.len()
        invariant
            i <= v.len(),
            r@ =~= v@.take(i as int),
        decreases v.len() - i,
    {
        r.push(v[i].clone());
        i = i + 1;
    }
    proof {
        assert(r@ =~= v@);
    }
    r
}

fn clone_commands(v: &Vec<CommandSummary>) -> (r: Vec<CommandSummary>)
    ensures
        r@ == v@,
{
    let mut r: Vec<CommandSummary> = Vec::new();
    let mut i: usize = 0;
    while i < v.len()
        invariant
            i <= v.len(),
            r@ =~= v@.take(i as int),
        decreases v.len() - i,
    {
        r.push(v[i].clone());
        i = i + 1;
    }
    proof {
        assert(r@ =~= v@);
    }
    r
}

} // verus!
