//! The prompt command's computations: choosing the prompt source,
//! assembling context snippets, and rendering a prompt result as plain
//! text, JSON, or a Kakoune command.
//!
//! Reading files and stdin, talking to the daemon, and piping text into the
//! editor stay outside the crate.

use vstd::prelude::*;
use vstd::string::StrSliceExecFns;
use vstd::string::StringExecFns;

use crate::cli::{PromptOptions, PromptOutput};
use crate::codec::{dec_str, enc_result, push_uint, string_of_chars};
use crate::ipc::{PlanEntrySummary, PlanEntrySummaryView, PromptResultPayload,
    PromptResultPayloadView, StopReason, TranscriptEvent, TranscriptEventView};
use crate::kakoune::{format_info_command, info_command_view};

verus! {

/// Whether a character counts as line whitespace when trimming prompts.
pub open spec fn is_line_space(c: char) -> bool {
    c == ' ' || c == '\t' || c == '\n' || c == '\r'
}

/// The text with trailing whitespace removed.
pub open spec fn trimmed_end(s: Seq<char>) -> Seq<char>
    decreases s.len(),
{
    if s.len() > 0 && is_line_space(s.last()) {
        trimmed_end(s.drop_last())
    } else {
        s
    }
}

/// Whether the text holds nothing but whitespace.
pub open spec fn is_blank(s: Seq<char>) -> bool {
    forall|i: int| 0 <= i < s.len() ==> is_line_space(#[trigger] s[i])
}

/// Whether a prompt is blank and must be rejected before it reaches the
/// daemon.
pub fn prompt_is_blank(prompt: &str) -> (r: bool)
    ensures
        r == is_blank(prompt@),
{
    let n = prompt.unicode_len();
    let mut i: usize = 0;
    while i < n
        invariant
            i <= n,
            n == prompt@.len(),
            forall|j: int| 0 <= j < i as int ==> is_line_space(#[trigger] prompt@[j]),
        decreases n - i,
    {
        let c = prompt.get_char(i);
        if !(c == ' ' || c == '\t' || c == '\n' || c == '\r') {
            return false;
        }
        i = i + 1;
    }
    true
}

/// Where the prompt text comes from, in order of preference: an inline
/// argument, a file, then piped standard input; nothing when neither is
/// given and stdin is a terminal.
#[derive(Clone, Copy, PartialEq, Eq, Structural, Debug)]
pub enum PromptSource {
    Inline,
    FromFile,
    FromStdin,
    Missing,
}

/// Decides where the prompt text is read from.
pub fn choose_prompt_source(options: &PromptOptions, stdin_is_terminal: bool) -> (r: PromptSource)
    ensures
        r == (if options.prompt is Some {
            PromptSource::Inline
        } else if options.prompt_file is Some {
            PromptSource::FromFile
        } else if !stdin_is_terminal {
            PromptSource::FromStdin
        } else {
            PromptSource::Missing
        }),
{
    if options.prompt.is_some() {
        PromptSource::Inline
    } else if options.prompt_file.is_some() {
        PromptSource::FromFile
    } else if !stdin_is_terminal {
        PromptSource::FromStdin
    } else {
        PromptSource::Missing
    }
}

/// Joins the inline context snippets with the contents read from context
/// files, inline snippets first, order preserved.
pub fn combine_context(context: &Vec<String>, file_texts: Vec<String>) -> (r: Vec<String>)
    ensures
        r.deep_view() == context.deep_view() + file_texts.deep_view(),
{
    let mut r = crate::ipc::clone_strings(context);
    let ghost head = r.deep_view();
    let ghost files = file_texts.deep_view();
    let mut rest = file_texts;
    let mut i: usize = 0;
    while rest.len() > 0
        invariant
            r.deep_view().len() + rest.deep_view().len() == head.len() + files.len(),
            r.deep_view() + rest.deep_view() =~~= head + files,
        decreases rest.len(),
    {
        let ghost rprev = r.deep_view();
        let ghost restprev = rest.deep_view();
        let x = rest.remove(0);
        r.push(x);
        proof {
            assert forall|m: int|
                0 <= m < r.deep_view().len() implies r.deep_view()[m] == rprev.push(
                x.deep_view(),
            )[m] by {
                assert(r.deep_view()[m] == r@[m].deep_view());
            }
            assert(r.deep_view() =~= rprev.push(x.deep_view()));
            assert forall|m: int|
                0 <= m < rest.deep_view().len() implies rest.deep_view()[m] == restprev.skip(
                1,
            )[m] by {
                assert(rest.deep_view()[m] == rest@[m].deep_view());
                assert(restprev[m + 1] == restprev.skip(1)[m]);
            }
            assert(rest.deep_view() =~= restprev.skip(1));
            assert(restprev[0] == x.deep_view());
            assert(r.deep_view() + rest.deep_view() =~~= rprev + restprev);
        }
    }
    proof {
        assert(rest.deep_view().len() == 0);
        assert(r.deep_view() =~~= r.deep_view() + rest.deep_view());
        assert(head == context.deep_view());
    }
    r
}

/// The debug-style name of a stop reason, as the plain rendering prints it.
pub open spec fn stop_debug_view(r: StopReason) -> Seq<char> {
    match r {
        StopReason::EndTurn => "EndTurn"@,
        StopReason::MaxTokens => "MaxTokens"@,
        StopReason::MaxTurnRequests => "MaxTurnRequests"@,
        StopReason::Refusal => "Refusal"@,
        StopReason::Cancelled => "Cancelled"@,
    }
}

fn stop_debug(r: &StopReason) -> (out: String)
    ensures
        out@ == stop_debug_view(*r),
{
    match r {
        StopReason::EndTurn => String::from_str("EndTurn"),
        StopReason::MaxTokens => String::from_str("MaxTokens"),
        StopReason::MaxTurnRequests => String::from_str("MaxTurnRequests"),
        StopReason::Refusal => String::from_str("Refusal"),
        StopReason::Cancelled => String::from_str("Cancelled"),
    }
}

/// What follows a context snippet: nothing if it already ends in a newline,
/// else one newline.
pub open spec fn ensure_nl(s: Seq<char>) -> Seq<char> {
    if s.len() > 0 && s.last() == '\n' {
        Seq::<char>::empty()
    } else {
        "\n"@
    }
}

/// The context section from snippet `idx` on, one numbered block each.
pub open spec fn context_block_from(ctx: Seq<Seq<char>>, idx: nat) -> Seq<char>
    decreases ctx.len(),
{
    if ctx.len() == 0 {
        Seq::<char>::empty()
    } else {
        "\n[context #"@ + dec_str(idx) + "]\n"@ + ctx[0] + ensure_nl(ctx[0]) + context_block_from(
            ctx.skip(1),
            idx + 1,
        )
    }
}

/// The context section: empty when there are no snippets, else the numbered
/// blocks starting at one.
pub open spec fn context_block(ctx: Seq<Seq<char>>) -> Seq<char> {
    if ctx.len() == 0 {
        Seq::<char>::empty()
    } else {
        context_block_from(ctx, 1)
    }
}

/// The plan section lines of one plan event.
pub open spec fn plan_lines(entries: Seq<PlanEntrySummaryView>) -> Seq<char>
    decreases entries.len(),
{
    if entries.len() == 0 {
        Seq::<char>::empty()
    } else {
        "  - ("@ + entries[0].status + "/"@ + entries[0].priority + ") "@ + entries[0].content
            + "\n"@ + plan_lines(entries.skip(1))
    }
}

/// The command section lines of one available-commands event.
pub open spec fn cmd_lines(commands: Seq<crate::ipc::CommandSummaryView>) -> Seq<char>
    decreases commands.len(),
{
    if commands.len() == 0 {
        Seq::<char>::empty()
    } else {
        "  - "@ + commands[0].name + ": "@ + commands[0].description + "\n"@ + (match commands[0]
            .hint {
            Some(h) => "      hint: "@ + h + "\n"@,
            None => Seq::<char>::empty(),
        }) + cmd_lines(commands.skip(1))
    }
}

/// The plain-text lines of one transcript event.
pub open spec fn event_text(e: TranscriptEventView) -> Seq<char> {
    match e {
        TranscriptEventView::UserMessage { text } => "[user] "@ + text + "\n"@,
        TranscriptEventView::AgentMessage { text } => "[agent] "@ + text + "\n"@,
        TranscriptEventView::AgentThought { text } => "[thought] "@ + text + "\n"@,
        TranscriptEventView::ToolCall { id, title, status } => "[tool "@ + id + "] "@ + status
            + ": "@ + title + "\n"@,
        TranscriptEventView::ToolCallUpdate { id, status, message } => "[tool "@ + id + "] "@ + (
        match status {
            Some(st) => st,
            None => "update"@,
        }) + "\n"@ + (match message {
            Some(m) => m + "\n"@,
            None => Seq::<char>::empty(),
        }),
        TranscriptEventView::Plan { entries } => "[plan]\n"@ + plan_lines(entries),
        TranscriptEventView::AvailableCommands { commands } => "[commands]\n"@ + cmd_lines(
            commands,
        ),
        TranscriptEventView::SystemMessage { text } => "[system] "@ + text + "\n"@,
    }
}

/// The plain-text lines of a whole transcript, in order.
pub open spec fn events_text(evs: Seq<TranscriptEventView>) -> Seq<char>
    decreases evs.len(),
{
    if evs.len() == 0 {
        Seq::<char>::empty()
    } else {
        event_text(evs[0]) + events_text(evs.skip(1))
    }
}

/// The whole plain rendering of a prompt result: prompt, context section,
/// transcript, stop reason.
pub open spec fn plain_text_view(r: PromptResultPayloadView) -> Seq<char> {
    "=== Prompt ===\n"@ + trimmed_end(r.user_prompt) + "\n"@ + context_block(r.context) + "\n"@
        + events_text(r.transcript) + "\nStop reason: "@ + stop_debug_view(r.stop_reason) + "\n"@
}

fn trim_end_str(s: &str) -> (r: String)
    ensures
        r@ == trimmed_end(s@),
{
    let v = crate::codec::chars_of(s);
    let mut k: usize = v.len();
    proof {
        assert(s@.take(v.len() as int) =~= s@);
    }
    while k > 0 && is_space_at(&v, k - 1)
        invariant
            k <= v.len(),
            v@ == s@,
            trimmed_end(s@) == trimmed_end(s@.take(k as int)),
        decreases k,
    {
        proof {
            assert(s@.take(k as int).last() == s@[k as int - 1]);
            assert(s@.take(k as int).drop_last() =~= s@.take(k as int - 1));
        }
        k = k - 1;
    }
    proof {
        if k > 0 {
            assert(s@.take(k as int).last() == s@[k as int - 1]);
            assert(!is_line_space(s@.take(k as int).last()));
        }
        assert(trimmed_end(s@.take(k as int)) == s@.take(k as int));
    }
    let mut out: Vec<char> = Vec::new();
    let mut i: usize = 0;
    while i < k
        invariant
            i <= k <= v.len(),
            v@ == s@,
            out@ =~= s@.take(i as int),
        decreases k - i,
    {
        out.push(v[i]);
        i = i + 1;
    }
    proof {
        assert(out@ =~= s@.take(k as int));
    }
    string_of_chars(&out)
}

fn is_space_at(v: &Vec<char>, i: usize) -> (r: bool)
    requires
        i < v.len(),
    ensures
        r == is_line_space(v@[i as int]),
{
    let c = v[i];
    c == ' ' || c == '\t' || c == '\n' || c == '\r'
}

fn render_context_from(ctx: &Vec<String>, i: usize) -> (r: String)
    requires
        i <= ctx.len(),
    ensures
        r@ == context_block_from(ctx.deep_view().skip(i as int), i as nat + 1),
    decreases ctx.len() - i,
{
    let ghost tail = ctx.deep_view().skip(i as int);
    if i == ctx.len() {
        proof {
            assert(tail.len() == 0);
        }
        String::new()
    } else {
        proof {
            assert(tail[0] == ctx.deep_view()[i as int]);
            assert(ctx.deep_view()[i as int] == ctx@[i as int].deep_view());
        }
        let mut out = String::from_str("\n[context #");
        let mut num: Vec<char> = Vec::new();
        push_uint(&mut num, (i as u64) + 1);
        let nums = string_of_chars(&num);
        out.append(nums.as_str());
        out.append("]\n");
        out.append(ctx[i].as_str());
        let snippet = &ctx[i];
        let n = snippet.as_str().unicode_len();
        if n == 0 || snippet.as_str().get_char(n - 1) != '\n' {
            out.append("\n");
        }
        let rest = render_context_from(ctx, i + 1);
        out.append(rest.as_str());
        proof {
            assert(tail.skip(1) =~= ctx.deep_view().skip(i as int + 1));
            assert(out@ =~= context_block_from(tail, i as nat + 1));
        }
        out
    }
}

fn render_plan_lines(entries: &Vec<PlanEntrySummary>, i: usize) -> (r: String)
    requires
        i <= entries.len(),
    ensures
        r@ == plan_lines(entries.deep_view().skip(i as int)),
    decreases entries.len() - i,
{
    let ghost tail = entries.deep_view().skip(i as int);
    if i == entries.len() {
        proof {
            assert(tail.len() == 0);
        }
        String::new()
    } else {
        proof {
            assert(tail[0] == entries.deep_view()[i as int]);
            assert(entries.deep_view()[i as int] == entries@[i as int].deep_view());
        }
        let e = &entries[i];
        let mut out = String::from_str("  - (");
        out.append(e.status.as_str());
        out.append("/");
        out.append(e.priority.as_str());
        out.append(") ");
        out.append(e.content.as_str());
        out.append("\n");
        let rest = render_plan_lines(entries, i + 1);
        out.append(rest.as_str());
        proof {
            assert(tail.skip(1) =~= entries.deep_view().skip(i as int + 1));
            assert(out@ =~= plan_lines(tail));
        }
        out
    }
}

fn render_cmd_lines(commands: &Vec<crate::ipc::CommandSummary>, i: usize) -> (r: String)
    requires
        i <= commands.len(),
    ensures
        r@ == cmd_lines(commands.deep_view().skip(i as int)),
    decreases commands.len() - i,
{
    let ghost tail = commands.deep_view().skip(i as int);
    if i == commands.len() {
        proof {
            assert(tail.len() == 0);
        }
        String::new()
    } else {
        proof {
            assert(tail[0] == commands.deep_view()[i as int]);
            assert(commands.deep_view()[i as int] == commands@[i as int].deep_view());
        }
        let c = &commands[i];
        let mut out = String::from_str("  - ");
        out.append(c.name.as_str());
        out.append(": ");
        out.append(c.description.as_str());
        out.append("\n");
        match &c.hint {
            Some(h) => {
                out.append("      hint: ");
                out.append(h.as_str());
                out.append("\n");
            },
            None => {},
        }
        let rest = render_cmd_lines(commands, i + 1);
        out.append(rest.as_str());
        proof {
            assert(tail.skip(1) =~= commands.deep_view().skip(i as int + 1));
            assert(out@ =~= cmd_lines(tail));
        }
        out
    }
}

fn render_event(e: &TranscriptEvent) -> (r: String)
    ensures
        r@ == event_text(e.deep_view()),
{
    match e {
        TranscriptEvent::UserMessage { text } => {
            let mut out = String::from_str("[user] ");
            out.append(text.as_str());
            out.append("\n");
            out
        },
        TranscriptEvent::AgentMessage { text } => {
            let mut out = String::from_str("[agent] ");
            out.append(text.as_str());
            out.append("\n");
            out
        },
        TranscriptEvent::AgentThought { text } => {
            let mut out = String::from_str("[thought] ");
            out.append(text.as_str());
            out.append("\n");
            out
        },
        TranscriptEvent::ToolCall { id, title, status } => {
            let mut out = String::from_str("[tool ");
            out.append(id.as_str());
            out.append("] ");
            out.append(status.as_str());
            out.append(": ");
            out.append(title.as_str());
            out.append("\n");
            out
        },
        TranscriptEvent::ToolCallUpdate { id, status, message } => {
            let mut out = String::from_str("[tool ");
            out.append(id.as_str());
            out.append("] ");
            match status {
                Some(st) => out.append(st.as_str()),
                None => out.append("update"),
            }
            out.append("\n");
            match message {
                Some(m) => {
                    out.append(m.as_str());
                    out.append("\n");
                },
                None => {},
            }
            out
        },
        TranscriptEvent::Plan { entries } => {
            let mut out = String::from_str("[plan]\n");
            let lines = render_plan_lines(entries, 0);
            out.append(lines.as_str());
            proof {
                assert(entries.deep_view().skip(0) =~= entries.deep_view());
            }
            out
        },
        TranscriptEvent::AvailableCommands { commands } => {
            let mut out = String::from_str("[commands]\n");
            let lines = render_cmd_lines(commands, 0);
            out.append(lines.as_str());
            proof {
                assert(commands.deep_view().skip(0) =~= commands.deep_view());
            }
            out
        },
        TranscriptEvent::SystemMessage { text } => {
            let mut out = String::from_str("[system] ");
            out.append(text.as_str());
            out.append("\n");
            out
        },
    }
}

fn render_events_from(transcript: &Vec<TranscriptEvent>, i: usize) -> (r: String)
    requires
        i <= transcript.len(),
    ensures
        r@ == events_text(transcript.deep_view().skip(i as int)),
    decreases transcript.len() - i,
{
    let ghost tail = transcript.deep_view().skip(i as int);
    if i == transcript.len() {
        proof {
            assert(tail.len() == 0);
        }
        String::new()
    } else {
        proof {
            assert(tail[0] == transcript.deep_view()[i as int]);
            assert(transcript.deep_view()[i as int] == transcript@[i as int].deep_view());
        }
        let mut out = render_event(&transcript[i]);
        let rest = render_events_from(transcript, i + 1);
        out.append(rest.as_str());
        proof {
            assert(tail.skip(1) =~= transcript.deep_view().skip(i as int + 1));
            assert(out@ =~= events_text(tail));
        }
        out
    }
}

/// Renders a prompt result as the plain-text report: the prompt, the
/// numbered context snippets, one line or block per transcript event in
/// order, and the stop reason.
pub fn render_plain_text(result: &PromptResultPayload) -> (r: String)
    ensures
        r@ == plain_text_view(result.deep_view()),
{
    let mut out = String::from_str("=== Prompt ===\n");
    let trimmed = trim_end_str(result.user_prompt.as_str());
    out.append(trimmed.as_str());
    out.append("\n");
    if result.context.len() > 0 {
        let ctx = render_context_from(&result.context, 0);
        out.append(ctx.as_str());
        proof {
            assert(result.context.deep_view().skip(0) =~= result.context.deep_view());
        }
    }
    out.append("\n");
    let events = render_events_from(&result.transcript, 0);
    out.append(events.as_str());
    proof {
        assert(result.transcript.deep_view().skip(0) =~= result.transcript.deep_view());
    }
    out.append("\nStop reason: ");
    let sd = stop_debug(&result.stop_reason);
    out.append(sd.as_str());
    out.append("\n");
    proof {
        assert(out@ =~= plain_text_view(result.deep_view()));
    }
    out
}

/// What one prompt result renders to in each output mode: the plain report,
/// the result as one JSON value, or the info command that displays the
/// plain report.
pub open spec fn prompt_output_view(
    output: PromptOutput,
    client: Option<Seq<char>>,
    title: Seq<char>,
    r: PromptResultPayloadView,
) -> Seq<char> {
    match output {
        PromptOutput::Plain => plain_text_view(r),
        PromptOutput::Json => enc_result(r),
        PromptOutput::KakCommands => info_command_view(client, title, plain_text_view(r)),
    }
}

/// Renders a prompt result under the chosen output mode.
pub fn render_prompt_output(options: &PromptOptions, result: &PromptResultPayload) -> (r: String)
    ensures
        r@ == prompt_output_view(
            options.output,
            options.client.deep_view(),
            options.title@,
            result.deep_view(),
        ),
{
    match options.output {
        PromptOutput::Plain => render_plain_text(result),
        PromptOutput::Json => crate::codec::encode_result_json(result),
        PromptOutput::KakCommands => {
            let body = render_plain_text(result);
            match &options.client {
                Some(c) => format_info_command(Some(c.as_str()), options.title.as_str(), body.as_str()),
                None => format_info_command(None, options.title.as_str(), body.as_str()),
            }
        },
    }
}

/// The command piped to the editor when a result is sent back to Kakoune:
/// only possible when a session is known.
pub fn kak_delivery_command(options: &PromptOptions, body: &str) -> (r: Option<String>)
    ensures
        (r is Some) == (options.session is Some),
        r matches Some(cmd) ==> cmd@ == info_command_view(
            options.client.deep_view(),
            options.title@,
            body@,
        ),
{
    match &options.session {
        Some(_) => {
            let cmd = match &options.client {
                Some(c) => format_info_command(
                    Some(c.as_str()),
                    options.title.as_str(),
                    body,
                ),
                None => format_info_command(None, options.title.as_str(), body),
            };
            Some(cmd)
        },
        None => None,
    }
}

} // verus!
