//! The bridge's error taxonomy.
//!
//! Failures local to one IPC connection never take down the daemon; failures
//! of the agent connection end the daemon.  Each variant records which of
//! those classes a failure belongs to; `message` renders it for a client.

use vstd::prelude::*;

verus! {

/// One failure class of the bridge.
#[verifier::ext_equal]
pub enum BridgeError {
    /// The agent process could not be started: fatal to daemon startup.
    Launch { message: String },
    /// The agent's stream broke: triggers daemon shutdown.
    Io { message: String },
    /// The prompt or session call itself failed: surfaced to the requesting
    /// client; the daemon keeps running.
    AgentCall { message: String },
    /// The notification bus closed mid-call: fatal to that call only.
    ChannelClosed,
    /// A malformed request or reply: returned to the offending peer only.
    Protocol { message: String },
    /// The daemon's socket could not be reached.
    Connect { message: String },
}

#[verifier::ext_equal]
pub ghost enum BridgeErrorView {
    Launch { message: Seq<char> },
    Io { message: Seq<char> },
    AgentCall { message: Seq<char> },
    ChannelClosed,
    Protocol { message: Seq<char> },
    Connect { message: Seq<char> },
}

impl DeepView for BridgeError {
    type V = BridgeErrorView;

    open spec fn deep_view(&self) -> BridgeErrorView {
        match self {
            BridgeError::Launch { message } => BridgeErrorView::Launch { message: message@ },
            BridgeError::Io { message } => BridgeErrorView::Io { message: message@ },
            BridgeError::AgentCall { message } => BridgeErrorView::AgentCall { message: message@ },
            BridgeError::ChannelClosed => BridgeErrorView::ChannelClosed,
            BridgeError::Protocol { message } => BridgeErrorView::Protocol { message: message@ },
            BridgeError::Connect { message } => BridgeErrorView::Connect { message: message@ },
        }
    }
}

/// The text under which an error is reported.
pub open spec fn error_message_view(e: BridgeErrorView) -> Seq<char> {
    match e {
        BridgeErrorView::Launch { message } => message,
        BridgeErrorView::Io { message } => message,
        BridgeErrorView::AgentCall { message } => message,
        BridgeErrorView::ChannelClosed => "session notification channel closed"@,
        BridgeErrorView::Protocol { message } => message,
        BridgeErrorView::Connect { message } => message,
    }
}

impl BridgeError {
    /// Renders this error as the message a client sees.
    pub fn message(self) -> (r: String)
        ensures
            r@ == error_message_view(self.deep_view()),
    {
        match self {
            BridgeError::Launch { message } => message,
            BridgeError::Io { message } => message,
            BridgeError::AgentCall { message } => message,
            BridgeError::ChannelClosed => String::from_str("session notification channel closed"),
            BridgeError::Protocol { message } => message,
            BridgeError::Connect { message } => message,
        }
    }
}

} // verus!
