//! The status and shutdown commands' computations: classifying the
//! daemon's reply and rendering the status report.
//!
//! The socket round trip itself stays outside the crate.

use vstd::prelude::*;
use vstd::string::StringExecFns;

use crate::codec::{dec_str, enc_bool, push_uint, string_of_chars};
use crate::ipc::{DaemonResponse, DaemonResponseView, DaemonStatus, DaemonStatusView};

verus! {

/// The agent command line as one space-separated string.
pub open spec fn joined_command(args: Seq<Seq<char>>) -> Seq<char>
    decreases args.len(),
{
    if args.len() == 0 {
        Seq::<char>::empty()
    } else if args.len() == 1 {
        args[0]
    } else {
        args[0] + " "@ + joined_command(args.skip(1))
    }
}

/// The plain status report, line by line: the socket path, the session id
/// when one exists, the running flag, the agent pid when one is known, and
/// the agent command when it is not empty.
pub open spec fn status_plain_view(t: DaemonStatusView) -> Seq<char> {
    "Socket: "@ + t.socket_path + "\n"@ + (match t.session_id {
        Some(s) => "Session ID: "@ + s + "\n"@,
        None => Seq::<char>::empty(),
    }) + "Agent running: "@ + enc_bool(t.running) + "\n"@ + (match t.agent_pid {
        Some(pid) => "Agent PID: "@ + dec_str(pid as nat) + "\n"@,
        None => Seq::<char>::empty(),
    }) + (if t.agent_command.len() == 0 {
        Seq::<char>::empty()
    } else {
        "Agent command: "@ + joined_command(t.agent_command) + "\n"@
    })
}

fn join_command_from(args: &Vec<String>, i: usize) -> (r: String)
    requires
        i <= args.len(),
    ensures
        r@ == joined_command(args.deep_view().skip(i as int)),
    decreases args.len() - i,
{
    let ghost tail = args.deep_view().skip(i as int);
    if i == args.len() {
        proof {
            assert(tail.len() == 0);
        }
        String::new()
    } else {
        proof {
            assert(tail[0] == args.deep_view()[i as int]);
            assert(args.deep_view()[i as int] == args@[i as int].deep_view());
        }
        let mut out = args[i].clone();
        if i + 1 < args.len() {
            out.append(" ");
            let rest = join_command_from(args, i + 1);
            out.append(rest.as_str());
            proof {
                assert(tail.skip(1) =~= args.deep_view().skip(i as int + 1));
                assert(out@ =~= joined_command(tail));
            }
        } else {
            proof {
                assert(tail.len() == 1);
            }
        }
        out
    }
}

/// Renders the plain status report.
#[verifier::rlimit(60)]
pub fn render_status_plain(status: &DaemonStatus) -> (r: String)
    ensures
        r@ == status_plain_view(status.deep_view()),
{
    let mut out = String::from_str("Socket: ");
    out.append(status.socket_path.as_str());
    out.append("\n");
    match &status.session_id {
        Some(s) => {
            out.append("Session ID: ");
            out.append(s.as_str());
            out.append("\n");
        },
        None => {},
    }
    out.append("Agent running: ");
    if status.running {
        out.append("true");
    } else {
        out.append("false");
    }
    out.append("\n");
    match &status.agent_pid {
        Some(pid) => {
            out.append("Agent PID: ");
            let mut num: Vec<char> = Vec::new();
            push_uint(&mut num, *pid as u64);
            let nums = string_of_chars(&num);
            out.append(nums.as_str());
            out.append("\n");
        },
        None => {},
    }
    if status.agent_command.len() > 0 {
        out.append("Agent command: ");
        let joined = join_command_from(&status.agent_command, 0);
        out.append(joined.as_str());
        out.append("\n");
        proof {
            assert(status.agent_command.deep_view().skip(0) =~= status.agent_command.deep_view());
        }
    }
    proof {
        assert(out@ =~= status_plain_view(status.deep_view()));
    }
    out
}

/// Takes the status record out of a reply: the status reply yields it; an
/// error reply yields its message; any other reply is unexpected.
pub fn expect_status(response: DaemonResponse) -> (r: Result<DaemonStatus, String>)
    ensures
        match response.deep_view() {
            DaemonResponseView::Status { status } => r matches Ok(t) && t.deep_view() == status,
            DaemonResponseView::Error { message } => r matches Err(m) && m@ == message,
            _ => r matches Err(m) && m@ == "unexpected daemon response"@,
        },
{
    match response {
        DaemonResponse::Status { status } => Ok(status),
        DaemonResponse::Error { message } => Err(message),
        _ => Err(String::from_str("unexpected daemon response")),
    }
}

/// Takes the acknowledgement out of a shutdown reply, in the same way.
pub fn expect_acknowledged(response: DaemonResponse) -> (r: Result<(), String>)
    ensures
        match response.deep_view() {
            DaemonResponseView::Acknowledged => r is Ok,
            DaemonResponseView::Error { message } => r matches Err(m) && m@ == message,
            _ => r matches Err(m) && m@ == "unexpected daemon response"@,
        },
{
    match response {
        DaemonResponse::Acknowledged => Ok(()),
        DaemonResponse::Error { message } => Err(message),
        _ => Err(String::from_str("unexpected daemon response")),
    }
}

} // verus!
