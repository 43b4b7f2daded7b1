//! The client side of the IPC protocol: what one round trip sends, and how
//! the daemon's reply — or its absence — is classified.
//!
//! The connection itself is made outside the crate: it writes the encoded
//! request line, reads back at most one line, and hands it in here.

use vstd::prelude::*;
use vstd::string::StringExecFns;

use crate::codec::{spec_decode_response, enc_req};
use crate::errors::{BridgeError, BridgeErrorView};
use crate::ipc::{DaemonRequest, DaemonResponse, DaemonResponseView, PromptResultPayload};

verus! {

/// The line a round trip writes for a request.
pub fn request_line(request: &DaemonRequest) -> (r: String)
    ensures
        r@ == enc_req(request.deep_view()),
{
    crate::codec::encode_request(request)
}

/// Classifies what came back from the daemon: no line at all means the
/// daemon closed the connection; a line that does not decode is a protocol
/// error; otherwise the decoded response.
pub fn classify_reply(line: Option<&str>) -> (r: Result<DaemonResponse, BridgeError>)
    ensures
        match line {
            None => r matches Err(e) && e.deep_view() == (BridgeErrorView::Protocol {
                message: "daemon closed the connection"@,
            }),
            Some(l) => match spec_decode_response(l@) {
                Some(resp) => r matches Ok(v) && v.deep_view() == resp,
                None => r matches Err(e) && e.deep_view() == (BridgeErrorView::Protocol {
                    message: "invalid response from daemon"@,
                }),
            },
        },
{
    match line {
        None => Err(
            BridgeError::Protocol { message: String::from_str("daemon closed the connection") },
        ),
        Some(l) => match crate::codec::decode_response(l) {
            Some(resp) => Ok(resp),
            None => Err(
                BridgeError::Protocol { message: String::from_str("invalid response from daemon") },
            ),
        },
    }
}

/// Takes the result out of a prompt reply: the prompt reply yields it; an
/// error reply yields its message; any other reply is unexpected.
pub fn expect_prompt(response: DaemonResponse) -> (r: Result<PromptResultPayload, String>)
    ensures
        match response.deep_view() {
            DaemonResponseView::Prompt { result } => r matches Ok(p) && p.deep_view() == result,
            DaemonResponseView::Error { message } => r matches Err(m) && m@ == message,
            _ => r matches Err(m) && m@ == "unexpected daemon response"@,
        },
{
    match response {
        DaemonResponse::Prompt { result } => Ok(result),
        DaemonResponse::Error { message } => Err(message),
        _ => Err(String::from_str("unexpected daemon response")),
    }
}

} // verus!
