//! The single-shot dispatcher's text logic: the quoting and modal info
//! command used when a lone prompt's answer is pushed straight into the
//! editor, the running conversation buffer, and the closing summaries.
//!
//! Spawning the editor process and writing to its pipe stay outside the
//! crate.

use vstd::prelude::*;
use vstd::string::StrSliceExecFns;
use vstd::string::StringExecFns;

use crate::codec::string_of_chars;
use crate::ipc::StopReason;
use crate::session::ContentBlock;

verus! {

/// How one character appears inside this dispatcher's quoting: single
/// quotes are doubled and newlines become a backslash-n pair, so that the
/// message stays on one command line.
pub open spec fn dispatch_escape_char(c: char) -> Seq<char> {
    if c == '\'' {
        seq!['\'', '\'']
    } else if c == '\n' {
        seq!['\\', 'n']
    } else {
        seq![c]
    }
}

/// A whole message, escaped character by character.
pub open spec fn dispatch_escape(s: Seq<char>) -> Seq<char>
    decreases s.len(),
{
    if s.len() == 0 {
        Seq::<char>::empty()
    } else {
        dispatch_escape_char(s[0]) + dispatch_escape(s.skip(1))
    }
}

/// A message as this dispatcher quotes it.
pub open spec fn dispatch_quoted(s: Seq<char>) -> Seq<char> {
    seq!['\''] + dispatch_escape(s) + seq!['\'']
}

proof fn lemma_dispatch_escape_concat(a: Seq<char>, b: Seq<char>)
    ensures
        dispatch_escape(a + b) == dispatch_escape(a) + dispatch_escape(b),
    decreases a.len(),
{
    if a.len() == 0 {
        assert(a + b =~= b);
        assert(dispatch_escape(a) + dispatch_escape(b) =~= dispatch_escape(b));
    } else {
        lemma_dispatch_escape_concat(a.skip(1), b);
        assert((a + b).skip(1) =~= a.skip(1) + b);
        assert(dispatch_escape_char((a + b)[0]) + (dispatch_escape(a.skip(1)) + dispatch_escape(b))
            =~= (dispatch_escape_char(a[0]) + dispatch_escape(a.skip(1))) + dispatch_escape(b));
    }
}

/// Quotes a message for a one-line editor command: single quotes doubled,
/// newlines written as a backslash-n pair.
pub fn kak_quote(text: &str) -> (r: String)
    ensures
        r@ == dispatch_quoted(text@),
{
    let mut out: Vec<char> = Vec::new();
    out.push('\'');
    let n = text.unicode_len();
    let mut i: usize = 0;
    while i < n
        invariant
            i <= n,
            n == text@.len(),
            out@ == seq!['\''] + dispatch_escape(text@.take(i as int)),
        decreases n - i,
    {
        let c = text.get_char(i);
        if c == '\'' {
            out.push('\'');
            out.push('\'');
        } else if c == '\n' {
            out.push('\\');
            out.push('n');
        } else {
            out.push(c);
        }
        i = i + 1;
        proof {
            assert(text@.take(i as int) =~= text@.take(i as int - 1) + seq![text@[i as int - 1]]);
            lemma_dispatch_escape_concat(text@.take(i as int - 1), seq![text@[i as int - 1]]);
            assert(seq![text@[i as int - 1]].skip(1) =~= Seq::<char>::empty());
            assert(dispatch_escape(seq![text@[i as int - 1]]) =~= dispatch_escape_char(
                text@[i as int - 1],
            ) + dispatch_escape(Seq::<char>::empty()));
            assert(out@ =~= seq!['\''] + dispatch_escape(text@.take(i as int)));
        }
    }
    out.push('\'');
    proof {
        assert(text@.take(n as int) =~= text@);
        assert(out@ =~= dispatch_quoted(text@));
    }
    string_of_chars(&out)
}

/// The one-line command that shows a modal info box in one client.
pub open spec fn modal_info_view(client: Seq<char>, message: Seq<char>) -> Seq<char> {
    "eval -client "@ + dispatch_quoted(client) + " %{ info -style modal -- "@ + dispatch_quoted(
        message,
    ) + " }\n"@
}

/// Renders the command that displays `message` as a modal info box in
/// `client`.
pub fn modal_info_command(client: &str, message: &str) -> (r: String)
    ensures
        r@ == modal_info_view(client@, message@),
{
    let mut out = String::from_str("eval -client ");
    let qc = kak_quote(client);
    out.append(qc.as_str());
    out.append(" %{ info -style modal -- ");
    let qm = kak_quote(message);
    out.append(qm.as_str());
    out.append(" }\n");
    out
}

/// The closing summary shown for each way a turn can end.
pub open spec fn stop_summary_view(r: StopReason) -> Seq<char> {
    match r {
        StopReason::EndTurn => "Agent turn complete."@,
        StopReason::MaxTokens => "Agent stopped after reaching the configured token limit."@,
        StopReason::MaxTurnRequests => "Agent stopped after reaching the maximum number of tool calls."@,
        StopReason::Refusal => "Agent refused to continue."@,
        StopReason::Cancelled => "Agent run cancelled."@,
    }
}

/// The message shown when a turn ends with the given stop reason.
pub fn stop_reason_summary(r: &StopReason) -> (out: String)
    ensures
        out@ == stop_summary_view(*r),
{
    match r {
        StopReason::EndTurn => String::from_str("Agent turn complete."),
        StopReason::MaxTokens => String::from_str(
            "Agent stopped after reaching the configured token limit.",
        ),
        StopReason::MaxTurnRequests => String::from_str(
            "Agent stopped after reaching the maximum number of tool calls.",
        ),
        StopReason::Refusal => String::from_str("Agent refused to continue."),
        StopReason::Cancelled => String::from_str("Agent run cancelled."),
    }
}

/// The text a message chunk contributes to the dispatcher's display, if
/// any: inline text as it is, a resource link by its address, and a short
/// placeholder for binary content.
pub open spec fn extracted_text_view(b: crate::session::ContentBlockView) -> Seq<char> {
    match b {
        crate::session::ContentBlockView::Text { text } => text,
        crate::session::ContentBlockView::ResourceLink { description, title, uri } => "Resource: "@
            + uri,
        crate::session::ContentBlockView::Image { uri, mime_type } => "<image omitted>"@,
        crate::session::ContentBlockView::Audio { mime_type } => "<audio omitted>"@,
        crate::session::ContentBlockView::TextResource { text } => "<resource omitted>"@,
        crate::session::ContentBlockView::BlobResource { uri } => "<resource omitted>"@,
    }
}

/// Extracts the display text of one content block.
pub fn extract_text(content: &ContentBlock) -> (r: String)
    ensures
        r@ == extracted_text_view(content.deep_view()),
{
    match content {
        ContentBlock::Text { text } => text.clone(),
        ContentBlock::ResourceLink { description: _, title: _, uri } => {
            let mut out = String::from_str("Resource: ");
            out.append(uri.as_str());
            out
        },
        ContentBlock::Image { uri: _, mime_type: _ } => String::from_str("<image omitted>"),
        ContentBlock::Audio { mime_type: _ } => String::from_str("<audio omitted>"),
        ContentBlock::TextResource { text: _ } => String::from_str("<resource omitted>"),
        ContentBlock::BlobResource { uri: _ } => String::from_str("<resource omitted>"),
    }
}

/// The running text of one conversation as the dispatcher accumulates it.
pub struct ConversationLog {
    buffer: String,
}

impl View for ConversationLog {
    type V = Seq<char>;

    closed spec fn view(&self) -> Seq<char> {
        self.buffer@
    }
}

impl ConversationLog {
    /// An empty log.
    pub fn new() -> (r: Self)
        ensures
            r@ == Seq::<char>::empty(),
    {
        ConversationLog { buffer: String::new() }
    }

    /// Starts a conversation over: the log holds one line naming the
    /// session.
    pub fn begin_conversation(&mut self, session_id: &str)
        ensures
            final(self)@ == "Session "@ + session_id@ + "\n"@,
    {
        let mut buffer = String::from_str("Session ");
        buffer.append(session_id);
        buffer.append("\n");
        self.buffer = buffer;
    }

    /// Appends one agent message chunk and returns the whole text to
    /// display.
    pub fn append_agent_message(&mut self, chunk: &str) -> (display: String)
        ensures
            final(self)@ == old(self)@ + chunk@,
            display@ == final(self)@,
    {
        self.buffer.append(chunk);
        self.buffer.clone()
    }
}

} // verus!
