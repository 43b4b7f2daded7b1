//! Transcript collection: the pure accumulator that turns the stream of
//! session updates observed during one prompt call into an ordered list of
//! normalized transcript events.
//!
//! `event_of_update` is the single translation point from update variants to
//! transcript events; it is total, so no update is ever silently discarded.
//! The collector appends exactly one event per update, in arrival order.

use vstd::prelude::*;

use crate::ipc::{CommandSummary, CommandSummaryView, PlanEntrySummary, PlanEntrySummaryView,
    TranscriptEvent, TranscriptEventView};
use crate::session::{AvailableCommandInput, AvailableCommandInputView, AvailableCommandView,
    ContentBlock, ContentBlockView, PlanEntryView, SessionNotification, SessionUpdate,
    SessionUpdateView, ToolCallContent, ToolCallContentView, ToolCallUpdateFieldsView,
    ToolCallUpdateView};

verus! {

/// The single line of text a content block contributes to a transcript.
pub open spec fn content_text(block: ContentBlockView) -> Seq<char> {
    match block {
        ContentBlockView::Text { text } => text,
        ContentBlockView::Image { uri, mime_type } => match uri {
            Some(u) => u,
            None => "<image:"@ + mime_type + ">"@,
        },
        ContentBlockView::Audio { mime_type } => "<audio:"@ + mime_type + ">"@,
        ContentBlockView::ResourceLink { description, title, uri } => match description {
            Some(d) => d,
            None => match title {
                Some(t) => t,
                None => "<resource:"@ + uri + ">"@,
            },
        },
        ContentBlockView::TextResource { text } => text,
        ContentBlockView::BlobResource { uri } => "<resource:"@ + uri + ">"@,
    }
}

/// Renders one content block as the text under which it appears in the
/// transcript.
pub fn render_content(block: ContentBlock) -> (r: String)
    ensures
        r@ == content_text(block.deep_view()),
{
    match block {
        ContentBlock::Text { text } => text,
        ContentBlock::Image { uri, mime_type } => match uri {
            Some(u) => u,
            None => {
                let mut s = String::from_str("<image:");
                s.append(mime_type.as_str());
                s.append(">");
                s
            },
        },
        ContentBlock::Audio { mime_type } => {
            let mut s = String::from_str("<audio:");
            s.append(mime_type.as_str());
            s.append(">");
            s
        },
        ContentBlock::ResourceLink { description, title, uri } => match description {
            Some(d) => d,
            None => match title {
                Some(t) => t,
                None => {
                    let mut s = String::from_str("<resource:");
                    s.append(uri.as_str());
                    s.append(">");
                    s
                },
            },
        },
        ContentBlock::TextResource { text } => text,
        ContentBlock::BlobResource { uri } => {
            let mut s = String::from_str("<resource:");
            s.append(uri.as_str());
            s.append(">");
            s
        },
    }
}

/// The line of text one piece of tool-call content contributes.
pub open spec fn tool_content_text(c: ToolCallContentView) -> Seq<char> {
    match c {
        ToolCallContentView::Content { content } => content_text(content),
        ToolCallContentView::Diff { path } => "diff for "@ + path,
        ToolCallContentView::Terminal { terminal_id } => "terminal "@ + terminal_id,
    }
}

/// The message parts of a tool-call update: its new title, if any, followed
/// by the text of each attached content entry, in order.
pub open spec fn update_parts(fields: ToolCallUpdateFieldsView) -> Seq<Seq<char>> {
    (match fields.title {
        Some(t) => seq![t],
        None => Seq::<Seq<char>>::empty(),
    }) + (match fields.content {
        Some(cs) => cs.map_values(|c: ToolCallContentView| tool_content_text(c)),
        None => Seq::<Seq<char>>::empty(),
    })
}

/// Joins the parts after the first, each preceded by a newline.
pub open spec fn join_tail(parts: Seq<Seq<char>>) -> Seq<char>
    decreases parts.len(),
{
    if parts.len() == 0 {
        Seq::<char>::empty()
    } else {
        "\n"@ + parts[0] + join_tail(parts.skip(1))
    }
}

/// Joins message parts with single newlines between them.
pub open spec fn join_lines(parts: Seq<Seq<char>>) -> Seq<char> {
    if parts.len() == 0 {
        Seq::<char>::empty()
    } else {
        parts[0] + join_tail(parts.skip(1))
    }
}

/// The optional message of a tool-call update event: absent when the update
/// carried neither a title nor content.
pub open spec fn update_message(fields: ToolCallUpdateFieldsView) -> Option<Seq<char>> {
    let parts = update_parts(fields);
    if parts.len() == 0 {
        None
    } else {
        Some(join_lines(parts))
    }
}

/// The transcript event a tool-call update normalizes to.
pub open spec fn summarize_update_view(u: ToolCallUpdateView) -> TranscriptEventView {
    TranscriptEventView::ToolCallUpdate {
        id: u.id,
        status: match u.fields.status {
            Some(s) => Some(s.label_view()),
            None => None,
        },
        message: update_message(u.fields),
    }
}

/// The summary a plan entry normalizes to: status and priority as labels.
pub open spec fn plan_summary_view(e: PlanEntryView) -> PlanEntrySummaryView {
    PlanEntrySummaryView {
        status: e.status.label_view(),
        priority: e.priority.label_view(),
        content: e.content,
    }
}

/// The summary an advertised command normalizes to.
pub open spec fn command_summary_view(c: AvailableCommandView) -> CommandSummaryView {
    CommandSummaryView {
        name: c.name,
        description: c.description,
        hint: match c.input {
            Some(AvailableCommandInputView::Unstructured { hint }) => Some(hint),
            None => None,
        },
    }
}

/// The single translation point: the one transcript event each session
/// update variant maps to.  Total over the closed set of variants.
pub open spec fn event_of_update(u: SessionUpdateView) -> TranscriptEventView {
    match u {
        SessionUpdateView::UserMessageChunk { content } => TranscriptEventView::UserMessage {
            text: content_text(content),
        },
        SessionUpdateView::AgentMessageChunk { content } => TranscriptEventView::AgentMessage {
            text: content_text(content),
        },
        SessionUpdateView::AgentThoughtChunk { content } => TranscriptEventView::AgentThought {
            text: content_text(content),
        },
        SessionUpdateView::ToolCall { call } => TranscriptEventView::ToolCall {
            id: call.id,
            title: call.title,
            status: call.status.label_view(),
        },
        SessionUpdateView::ToolCallUpdate { update } => summarize_update_view(update),
        SessionUpdateView::Plan { plan } => TranscriptEventView::Plan {
            entries: plan.entries.map_values(|e: PlanEntryView| plan_summary_view(e)),
        },
        SessionUpdateView::AvailableCommandsUpdate { available_commands } => {
            TranscriptEventView::AvailableCommands {
                commands: available_commands.map_values(
                    |c: AvailableCommandView| command_summary_view(c),
                ),
            }
        },
        SessionUpdateView::CurrentModeUpdate { current_mode_id } => {
            TranscriptEventView::SystemMessage { text: "Current mode: "@ + current_mode_id }
        },
    }
}

fn join_from(parts: &Vec<String>, i: usize) -> (r: String)
    requires
        i <= parts.len(),
    ensures
        r@ == join_tail(parts.deep_view().skip(i as int)),
    decreases parts.len() - i,
{
    if i == parts.len() {
        proof {
            assert(parts.deep_view().skip(i as int) =~= Seq::<Seq<char>>::empty());
        }
        String::new()
    } else {
        let mut s = String::from_str("\n");
        s.append(parts[i].as_str());
        let rest = join_from(parts, i + 1);
        s.append(rest.as_str());
        proof {
            let tail = parts.deep_view().skip(i as int);
            assert(tail[0] == parts.deep_view()[i as int]);
            assert(tail.skip(1) =~= parts.deep_view().skip(i as int + 1));
        }
        s
    }
}

fn join_parts(parts: &Vec<String>) -> (r: Option<String>)
    ensures
        r.deep_view() == (if parts.deep_view().len() == 0 {
            Option::<Seq<char>>::None
        } else {
            Some(join_lines(parts.deep_view()))
        }),
{
    if parts.len() == 0 {
        None
    } else {
        let mut s = parts[0].clone();
        let rest = join_from(parts, 1);
        s.append(rest.as_str());
        proof {
            assert(parts.deep_view()[0] == parts[0 as int]@);
        }
        Some(s)
    }
}

/// Pure accumulator of transcript events for one prompt call.
pub struct TranscriptCollector {
    events: Vec<TranscriptEvent>,
}

impl View for TranscriptCollector {
    type V = Seq<TranscriptEventView>;

    closed spec fn view(&self) -> Seq<TranscriptEventView> {
        self.events.deep_view()
    }
}

impl TranscriptCollector {
    /// A fresh collector with an empty transcript.
    pub fn new() -> (r: Self)
        ensures
            r@ == Seq::<TranscriptEventView>::empty(),
    {
        let r = TranscriptCollector { events: Vec::new() };
        proof {
            assert(r@ =~= Seq::<TranscriptEventView>::empty());
        }
        r
    }

    /// Seeds the transcript with a user message for the prompt text itself;
    /// an empty prompt adds nothing.
    pub fn push_user_prompt(&mut self, text: String)
        ensures
            final(self)@ == (if text@.len() == 0 {
                old(self)@
            } else {
                old(self)@.push(TranscriptEventView::UserMessage { text: text@ })
            }),
    {
        if !text.as_str().is_empty() {
            let ghost prior = self@;
            self.events.push(TranscriptEvent::UserMessage { text });
            proof {
                assert(self@ =~= prior.push(TranscriptEventView::UserMessage { text: text@ }));
            }
        }
    }

    /// Appends the one event this notification's update normalizes to.
    /// Exactly one event is appended whatever the variant: nothing is
    /// dropped, merged, or reordered.
    pub fn record_notification(&mut self, notification: SessionNotification)
        ensures
            final(self)@ == old(self)@.push(event_of_update(notification.update.deep_view())),
    {
        let ghost prior = self@;
        let ghost uview = notification.update.deep_view();
        let event = match notification.update {
            SessionUpdate::UserMessageChunk { content } => TranscriptEvent::UserMessage {
                text: render_content(content),
            },
            SessionUpdate::AgentMessageChunk { content } => TranscriptEvent::AgentMessage {
                text: render_content(content),
            },
            SessionUpdate::AgentThoughtChunk { content } => TranscriptEvent::AgentThought {
                text: render_content(content),
            },
            SessionUpdate::ToolCall(call) => TranscriptEvent::ToolCall {
                id: call.id,
                title: call.title,
                status: call.status.label(),
            },
            SessionUpdate::ToolCallUpdate(update) => summarize_tool_call_update(update),
            SessionUpdate::Plan(plan) => {
                let mut entries: Vec<PlanEntrySummary> = Vec::new();
                let mut i: usize = 0;
                while i < plan.entries.len()
                    invariant
                        i <= plan.entries.len(),
                        entries.deep_view().len() == i as int,
                        forall|j: int|
                            0 <= j < i as int ==> entries.deep_view()[j] == plan_summary_view(
                                plan.entries.deep_view()[j],
                            ),
                    decreases plan.entries.len() - i,
                {
                    let ghost beforev = entries@;
                    let ghost before = entries.deep_view();
                    let e = &plan.entries[i];
                    entries.push(PlanEntrySummary {
                        status: e.status.label(),
                        priority: e.priority.label(),
                        content: e.content.clone(),
                    });
                    i = i + 1;
                    proof {
                        assert forall|j: int|
                            0 <= j < i as int implies entries.deep_view()[j] == plan_summary_view(
                            plan.entries.deep_view()[j],
                        ) by {
                            assert(entries.deep_view()[j] == entries@[j].deep_view());
                            assert(plan.entries.deep_view()[j] == plan.entries@[j].deep_view());
                            if j < i as int - 1 {
                                assert(entries@[j] == beforev[j]);
                                assert(before[j] == beforev[j].deep_view());
                                assert(before[j] == plan_summary_view(
                                    plan.entries.deep_view()[j],
                                ));
                            }
                        }
                    }
                }
                proof {
                    assert(entries.deep_view() =~= plan.entries.deep_view().map_values(
                        |e: PlanEntryView| plan_summary_view(e),
                    ));
                }
                TranscriptEvent::Plan { entries }
            },
            SessionUpdate::AvailableCommandsUpdate { available_commands } => {
                let mut commands: Vec<CommandSummary> = Vec::new();
                let mut i: usize = 0;
                while i < available_commands.len()
                    invariant
                        i <= available_commands.len(),
                        commands.deep_view().len() == i as int,
                        forall|j: int|
                            0 <= j < i as int ==> commands.deep_view()[j] == command_summary_view(
                                available_commands.deep_view()[j],
                            ),
                    decreases available_commands.len() - i,
                {
                    let ghost beforev = commands@;
                    let ghost before = commands.deep_view();
                    let c = &available_commands[i];
                    commands.push(CommandSummary {
                        name: c.name.clone(),
                        description: c.description.clone(),
                        hint: match &c.input {
                            Some(AvailableCommandInput::Unstructured { hint }) => Some(
                                hint.clone(),
                            ),
                            None => None,
                        },
                    });
                    i = i + 1;
                    proof {
                        assert forall|j: int|
                            0 <= j < i as int implies commands.deep_view()[j]
                            == command_summary_view(available_commands.deep_view()[j]) by {
                            assert(commands.deep_view()[j] == commands@[j].deep_view());
                            assert(available_commands.deep_view()[j]
                                == available_commands@[j].deep_view());
                            if j < i as int - 1 {
                                assert(commands@[j] == beforev[j]);
                                assert(before[j] == beforev[j].deep_view());
                                assert(before[j] == command_summary_view(
                                    available_commands.deep_view()[j],
                                ));
                            }
                        }
                    }
                }
                proof {
                    assert(commands.deep_view() =~= available_commands.deep_view().map_values(
                        |c: AvailableCommandView| command_summary_view(c),
                    ));
                }
                TranscriptEvent::AvailableCommands { commands }
            },
            SessionUpdate::CurrentModeUpdate { current_mode_id } => {
                let mut s = String::from_str("Current mode: ");
                s.append(current_mode_id.as_str());
                TranscriptEvent::SystemMessage { text: s }
            },
        };
        proof {
            assert(event.deep_view() == event_of_update(uview));
        }
        self.events.push(event);
        proof {
            assert(self@ =~= prior.push(event_of_update(uview)));
        }
    }

    /// Yields the collected transcript and consumes the collector.
    pub fn finish(self) -> (r: Vec<TranscriptEvent>)
        ensures
            r.deep_view() == self@,
    {
        self.events
    }

    /// A copy of the events collected so far, in order.
    pub fn snapshot(&self) -> (r: Vec<TranscriptEvent>)
        ensures
            r.deep_view() == self@,
    {
        let mut r: Vec<TranscriptEvent> = Vec::new();
        let mut i: usize = 0;
        while i < self.events.len()
            invariant
                i <= self.events.len(),
                r.deep_view().len() == i as int,
                forall|j: int| 0 <= j < i as int ==> r.deep_view()[j] == self.events.deep_view()[j],
            decreases self.events.len() - i,
        {
            let ghost beforev = r@;
            let ghost before = r.deep_view();
            r.push(self.events[i].clone());
            i = i + 1;
            proof {
                assert forall|j: int|
                    0 <= j < i as int implies r.deep_view()[j] == self.events.deep_view()[j] by {
                    assert(r.deep_view()[j] == r@[j].deep_view());
                    assert(self.events.deep_view()[j] == self.events@[j].deep_view());
                    if j < i as int - 1 {
                        assert(r@[j] == beforev[j]);
                        assert(before[j] == beforev[j].deep_view());
                        assert(before[j] == self.events.deep_view()[j]);
                    }
                }
            }
        }
        proof {
            assert(r.deep_view() =~= self@);
        }
        r
    }
}

/// Normalizes one tool-call update into its transcript event: the status as
/// a label if present, and the title and content entries joined by newlines
/// as the message, if there are any.
pub fn summarize_tool_call_update(update: crate::session::ToolCallUpdate) -> (r: TranscriptEvent)
    ensures
        r.deep_view() == summarize_update_view(update.deep_view()),
{
    let ghost fieldsv = update.fields.deep_view();
    let status = match update.fields.status {
        Some(s) => Some(s.label()),
        None => None,
    };
    let mut message_parts: Vec<String> = Vec::new();
    if let Some(title) = update.fields.title {
        message_parts.push(title);
        proof {
            assert(message_parts.deep_view()[0] == message_parts@[0].deep_view());
            assert(message_parts.deep_view() =~= seq![title@]);
        }
    }
    let ghost title_parts = message_parts.deep_view();
    proof {
        assert(title_parts =~= (match fieldsv.title {
            Some(t) => seq![t],
            None => Seq::<Seq<char>>::empty(),
        }));
    }
    if let Some(content) = update.fields.content {
        let mut i: usize = 0;
        while i < content.len()
            invariant
                i <= content.len(),
                message_parts.deep_view().len() == title_parts.len() + i as int,
                message_parts.deep_view().take(title_parts.len() as int) =~= title_parts,
                forall|j: int|
                    0 <= j < i as int ==> message_parts.deep_view()[title_parts.len() + j]
                        == tool_content_text(content.deep_view()[j]),
            decreases content.len() - i,
        {
            let ghost beforev = message_parts@;
            let ghost before = message_parts.deep_view();
            let entry = &content[i];
            let rendered = render_tool_content_ref(entry);
            message_parts.push(rendered);
            i = i + 1;
            proof {
                assert forall|j: int|
                    0 <= j < before.len() implies message_parts.deep_view()[j] == before[j] by {
                    assert(message_parts.deep_view()[j] == message_parts@[j].deep_view());
                    assert(message_parts@[j] == beforev[j]);
                    assert(before[j] == beforev[j].deep_view());
                }
                assert(message_parts.deep_view()[before.len() as int] == rendered@);
                assert(content.deep_view()[i as int - 1] == content@[i as int - 1].deep_view());
                assert(message_parts.deep_view().take(title_parts.len() as int) =~= before.take(
                    title_parts.len() as int,
                ));
            }
        }
        proof {
            let f = |c: ToolCallContentView| tool_content_text(c);
            let expected = title_parts + content.deep_view().map_values(f);
            assert(update_parts(fieldsv) == expected);
            assert forall|k: int|
                0 <= k < message_parts.deep_view().len() implies message_parts.deep_view()[k]
                == expected[k] by {
                if k < title_parts.len() {
                    assert(message_parts.deep_view().take(title_parts.len() as int)[k]
                        == message_parts.deep_view()[k]);
                } else {
                    assert(content.deep_view().map_values(f)[k - title_parts.len()] == f(
                        content.deep_view()[k - title_parts.len()],
                    ));
                }
            }
            assert(message_parts.deep_view() =~= expected);
            assert(message_parts.deep_view() == update_parts(fieldsv));
        }
    } else {
        proof {
            assert(update_parts(fieldsv) == title_parts + Seq::<Seq<char>>::empty());
            assert(message_parts.deep_view() =~= title_parts + Seq::<Seq<char>>::empty());
        }
    }
    let message = join_parts(&message_parts);
    TranscriptEvent::ToolCallUpdate { id: update.id, status, message }
}

fn render_tool_content_ref(c: &ToolCallContent) -> (r: String)
    ensures
        r@ == tool_content_text(c.deep_view()),
{
    match c {
        ToolCallContent::Content { content } => match content {
            ContentBlock::Text { text } => text.clone(),
            ContentBlock::Image { uri, mime_type } => match uri {
                Some(u) => u.clone(),
                None => {
                    let mut s = String::from_str("<image:");
                    s.append(mime_type.as_str());
                    s.append(">");
                    s
                },
            },
            ContentBlock::Audio { mime_type } => {
                let mut s = String::from_str("<audio:");
                s.append(mime_type.as_str());
                s.append(">");
                s
            },
            ContentBlock::ResourceLink { description, title, uri } => match description {
                Some(d) => d.clone(),
                None => match title {
                    Some(t) => t.clone(),
                    None => {
                        let mut s = String::from_str("<resource:");
                        s.append(uri.as_str());
                        s.append(">");
                        s
                    },
                },
            },
            ContentBlock::TextResource { text } => text.clone(),
            ContentBlock::BlobResource { uri } => {
                let mut s = String::from_str("<resource:");
                s.append(uri.as_str());
                s.append(">");
                s
            },
        },
        ToolCallContent::Diff { path } => {
            let mut s = String::from_str("diff for ");
            s.append(path.as_str());
            s
        },
        ToolCallContent::Terminal { terminal_id } => {
            let mut s = String::from_str("terminal ");
            s.append(terminal_id.as_str());
            s
        },
    }
}

/// The transcript that results from feeding `updates`, in order, into a
/// collector whose transcript so far is `init`.
pub open spec fn collect_updates(
    init: Seq<TranscriptEventView>,
    updates: Seq<SessionUpdateView>,
) -> Seq<TranscriptEventView>
    decreases updates.len(),
{
    if updates.len() == 0 {
        init
    } else {
        collect_updates(init.push(event_of_update(updates[0])), updates.skip(1))
    }
}

/// Law: a collector is order-preserving and complete.  Feeding any sequence
/// of session updates appends exactly one normalized event per update, in
/// arrival order; none is dropped, merged, or reordered.
pub proof fn lemma_collector_order_and_completeness(
    init: Seq<TranscriptEventView>,
    updates: Seq<SessionUpdateView>,
)
    ensures
        collect_updates(init, updates) == init + updates.map_values(
            |u: SessionUpdateView| event_of_update(u),
        ),
        collect_updates(init, updates).len() == init.len() + updates.len(),
    decreases updates.len(),
{
    let f = |u: SessionUpdateView| event_of_update(u);
    if updates.len() == 0 {
        assert(collect_updates(init, updates) =~= init + updates.map_values(f));
    } else {
        lemma_collector_order_and_completeness(init.push(event_of_update(updates[0])), updates.skip(1));
        assert(init.push(event_of_update(updates[0])) + updates.skip(1).map_values(f) =~= init
            + updates.map_values(f));
    }
}

} // verus!
