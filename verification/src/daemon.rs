//! The daemon's orchestration logic as a state machine over plain events.
//!
//! The boundary code runs the cooperative loops: it accepts connections,
//! issues the agent `prompt` call, and receives bus events.  Every decision
//! those loops make is a function here: `PromptRun` drives one prompt call
//! from the interleaved stream of bus events to its correlated result, and
//! the small functions below give the accept loop's and the request
//! handlers' transitions.

use vstd::prelude::*;

use crate::errors::{BridgeError, BridgeErrorView};
use crate::ipc::{clone_strings, DaemonRequest, DaemonResponse, DaemonResponseView, DaemonStatus,
    PromptPayload, PromptResultPayload, PromptResultPayloadView, StopReason, TranscriptEventView};
use crate::session::{SessionNotificationView, SessionUpdateView};
use crate::transcript::{event_of_update, TranscriptCollector};

verus! {

/// One event observed while a prompt call is in flight: a bus delivery, a
/// bus failure, or the call itself settling.
pub enum BusEvent {
    /// The bus delivered a session notification.
    Notification(crate::session::SessionNotification),
    /// The subscription fell behind and the bus dropped `skipped` messages.
    Lagged { skipped: u64 },
    /// The bus closed: its publisher is gone.
    Closed,
    /// The prompt call resolved with this stop reason.
    Resolved { stop_reason: StopReason },
    /// The prompt call itself failed.
    CallFailed { message: String },
}

#[verifier::ext_equal]
pub ghost enum BusEventView {
    Notification { notification: SessionNotificationView },
    Lagged { skipped: u64 },
    Closed,
    Resolved { stop_reason: StopReason },
    CallFailed { message: Seq<char> },
}

impl DeepView for BusEvent {
    type V = BusEventView;

    open spec fn deep_view(&self) -> BusEventView {
        match self {
            BusEvent::Notification(notification) => BusEventView::Notification {
                notification: notification.deep_view(),
            },
            BusEvent::Lagged { skipped } => BusEventView::Lagged { skipped: *skipped },
            BusEvent::Closed => BusEventView::Closed,
            BusEvent::Resolved { stop_reason } => BusEventView::Resolved {
                stop_reason: *stop_reason,
            },
            BusEvent::CallFailed { message } => BusEventView::CallFailed { message: message@ },
        }
    }
}

/// What the orchestration loop does after one event.
pub enum PromptStep {
    /// Keep draining the bus; the call has not settled.
    Continue,
    /// The call is over and failed.
    Failed(BridgeError),
    /// The call is over; this is its correlated result.
    Done(PromptResultPayload),
}

#[verifier::ext_equal]
pub ghost enum PromptStepView {
    Continue,
    Failed { error: BridgeErrorView },
    Done { result: PromptResultPayloadView },
}

impl DeepView for PromptStep {
    type V = PromptStepView;

    open spec fn deep_view(&self) -> PromptStepView {
        match self {
            PromptStep::Continue => PromptStepView::Continue,
            PromptStep::Failed(error) => PromptStepView::Failed { error: error.deep_view() },
            PromptStep::Done(result) => PromptStepView::Done { result: result.deep_view() },
        }
    }
}

/// The state of one prompt orchestration.
#[verifier::ext_equal]
pub ghost struct PromptRunView {
    pub session_id: Seq<char>,
    pub prompt: Seq<char>,
    pub context: Seq<Seq<char>>,
    pub transcript: Seq<TranscriptEventView>,
}

/// The transcript a fresh orchestration starts from: the prompt text as a
/// user message, or nothing when the prompt is empty.
pub open spec fn seed_transcript(prompt: Seq<char>) -> Seq<TranscriptEventView> {
    if prompt.len() == 0 {
        Seq::<TranscriptEventView>::empty()
    } else {
        seq![TranscriptEventView::UserMessage { text: prompt }]
    }
}

/// How one bus event changes the orchestration state: a notification whose
/// session matches appends its normalized event; everything else leaves the
/// state unchanged.
pub open spec fn run_step(st: PromptRunView, ev: BusEventView) -> PromptRunView {
    match ev {
        BusEventView::Notification { notification } => {
            if notification.session_id == st.session_id {
                PromptRunView {
                    transcript: st.transcript.push(event_of_update(notification.update)),
                    ..st
                }
            } else {
                st
            }
        },
        _ => st,
    }
}

/// What the orchestration loop answers to one bus event.  Notifications and
/// lag keep the loop running; a closed bus fails the call; a failed call is
/// surfaced; resolution yields the result with everything collected so far.
pub open spec fn run_output(st: PromptRunView, ev: BusEventView) -> PromptStepView {
    match ev {
        BusEventView::Notification { .. } => PromptStepView::Continue,
        BusEventView::Lagged { .. } => PromptStepView::Continue,
        BusEventView::Closed => PromptStepView::Failed { error: BridgeErrorView::ChannelClosed },
        BusEventView::CallFailed { message } => PromptStepView::Failed {
            error: BridgeErrorView::AgentCall { message },
        },
        BusEventView::Resolved { stop_reason } => PromptStepView::Done {
            result: PromptResultPayloadView {
                stop_reason,
                user_prompt: st.prompt,
                context: st.context,
                transcript: st.transcript,
            },
        },
    }
}

/// One prompt orchestration: drives a prompt call against the interleaved
/// stream of bus events until the call settles.
pub struct PromptRun {
    session_id: String,
    prompt: String,
    context: Vec<String>,
    collector: TranscriptCollector,
}

impl View for PromptRun {
    type V = PromptRunView;

    closed spec fn view(&self) -> PromptRunView {
        PromptRunView {
            session_id: self.session_id@,
            prompt: self.prompt@,
            context: self.context.deep_view(),
            transcript: self.collector@,
        }
    }
}

impl PromptRun {
    /// Starts an orchestration for one prompt against the active session,
    /// seeding the transcript with the prompt text.
    pub fn new(session_id: String, payload: PromptPayload) -> (r: Self)
        ensures
            r@.session_id == session_id@,
            r@.prompt == payload.deep_view().prompt,
            r@.context == payload.deep_view().context,
            r@.transcript == seed_transcript(payload.deep_view().prompt),
    {
        let PromptPayload { prompt, context } = payload;
        let mut collector = TranscriptCollector::new();
        collector.push_user_prompt(prompt.clone());
        PromptRun { session_id, prompt, context, collector }
    }

    /// The ordered content blocks of the outbound call: the prompt text
    /// first, then one block per context snippet.
    pub fn content_blocks(&self) -> (r: Vec<String>)
        ensures
            r.deep_view() == seq![self@.prompt] + self@.context,
    {
        let mut r: Vec<String> = Vec::new();
        r.push(self.prompt.clone());
        let mut i: usize = 0;
        while i < self.context.len()
            invariant
                i <= self.context.len(),
                r@.len() == 1 + i as int,
                r@[0] == self.prompt,
                forall|j: int| 0 <= j < i as int ==> r@[1 + j] == self.context@[j],
            decreases self.context.len() - i,
        {
            r.push(self.context[i].clone());
            i = i + 1;
        }
        proof {
            assert forall|k: int|
                0 <= k < r.deep_view().len() implies r.deep_view()[k] == (seq![self@.prompt]
                + self@.context)[k] by {
                assert(r.deep_view()[k] == r@[k].deep_view());
                if k > 0 {
                    assert(self@.context[k - 1] == self.context@[k - 1].deep_view());
                }
            }
            assert(r.deep_view() =~= seq![self@.prompt] + self@.context);
        }
        r
    }

    /// Feeds one bus event into the orchestration: the state changes by
    /// `run_step` and the loop's answer is `run_output`.
    pub fn on_event(&mut self, event: BusEvent) -> (r: PromptStep)
        ensures
            final(self)@ == run_step(old(self)@, event.deep_view()),
            r.deep_view() == run_output(old(self)@, event.deep_view()),
    {
        match event {
            BusEvent::Notification(notification) => {
                if notification.session_id == self.session_id {
                    self.collector.record_notification(notification);
                }
                PromptStep::Continue
            },
            BusEvent::Lagged { skipped: _ } => PromptStep::Continue,
            BusEvent::Closed => PromptStep::Failed(BridgeError::ChannelClosed),
            BusEvent::CallFailed { message } => PromptStep::Failed(
                BridgeError::AgentCall { message },
            ),
            BusEvent::Resolved { stop_reason } => {
                let result = PromptResultPayload {
                    stop_reason,
                    user_prompt: self.prompt.clone(),
                    context: clone_strings(&self.context),
                    transcript: self.collector.snapshot(),
                };
                proof {
                    assert(result.deep_view() =~= PromptResultPayloadView {
                        stop_reason,
                        user_prompt: self@.prompt,
                        context: self@.context,
                        transcript: self@.transcript,
                    });
                }
                PromptStep::Done(result)
            },
        }
    }
}

/// The orchestration state after a sequence of bus events.
pub open spec fn run_events(st: PromptRunView, evs: Seq<BusEventView>) -> PromptRunView
    decreases evs.len(),
{
    if evs.len() == 0 {
        st
    } else {
        run_events(run_step(st, evs[0]), evs.skip(1))
    }
}

/// The updates of exactly those notifications that carry the given session
/// id, in arrival order.
pub open spec fn recorded_updates(evs: Seq<BusEventView>, session_id: Seq<char>) -> Seq<
    SessionUpdateView,
>
    decreases evs.len(),
{
    if evs.len() == 0 {
        Seq::<SessionUpdateView>::empty()
    } else {
        (match evs[0] {
            BusEventView::Notification { notification } => {
                if notification.session_id == session_id {
                    seq![notification.update]
                } else {
                    Seq::<SessionUpdateView>::empty()
                }
            },
            _ => Seq::<SessionUpdateView>::empty(),
        }) + recorded_updates(evs.skip(1), session_id)
    }
}

/// Law: order preservation.  Whatever bus events interleave with a prompt
/// call, the orchestration's transcript is its seed followed by the
/// normalized event of every matching notification, in arrival order: no
/// reordering, no merging, and exactly one transcript event per matching
/// notification.  Lag signals and foreign sessions leave it untouched, and
/// the prompt, context and session id never change.
pub proof fn lemma_run_order_preservation(st: PromptRunView, evs: Seq<BusEventView>)
    ensures
        run_events(st, evs).transcript == st.transcript + recorded_updates(
            evs,
            st.session_id,
        ).map_values(|u: SessionUpdateView| event_of_update(u)),
        run_events(st, evs).session_id == st.session_id,
        run_events(st, evs).prompt == st.prompt,
        run_events(st, evs).context == st.context,
    decreases evs.len(),
{
    let f = |u: SessionUpdateView| event_of_update(u);
    if evs.len() == 0 {
        assert(run_events(st, evs).transcript =~= st.transcript + recorded_updates(
            evs,
            st.session_id,
        ).map_values(f));
    } else {
        let st1 = run_step(st, evs[0]);
        lemma_run_order_preservation(st1, evs.skip(1));
        assert(st1.transcript + recorded_updates(evs.skip(1), st.session_id).map_values(f)
            =~= st.transcript + recorded_updates(evs, st.session_id).map_values(f));
    }
}

/// Law: no loss at completion.  If the call resolves after any sequence of
/// bus events — including notifications handled in the same scheduling turn
/// as the resolution — the returned result carries the full transcript:
/// seed plus every matching notification's event, in order, together with
/// the original prompt and context.
pub proof fn lemma_no_loss_at_completion(
    st: PromptRunView,
    evs: Seq<BusEventView>,
    stop_reason: StopReason,
)
    ensures
        run_output(run_events(st, evs), BusEventView::Resolved { stop_reason })
            == (PromptStepView::Done {
            result: PromptResultPayloadView {
                stop_reason,
                user_prompt: st.prompt,
                context: st.context,
                transcript: st.transcript + recorded_updates(evs, st.session_id).map_values(
                    |u: SessionUpdateView| event_of_update(u),
                ),
            },
        }),
{
    lemma_run_order_preservation(st, evs);
}

/// One event the daemon's accept loop can observe.
pub enum ServerEvent {
    /// The shutdown notifier fired.
    ShutdownRequested,
    /// A client connection was accepted.
    ClientAccepted,
    /// Accepting a connection failed.
    AcceptFailed,
}

/// What the accept loop does with one event.
#[derive(PartialEq, Eq, Structural, Debug)]
pub enum ServerDecision {
    /// Handle the accepted client in its own task and keep accepting.
    HandleClient,
    /// Leave the loop: the daemon is going down.
    Stop,
}

/// The accept loop's transition: a requested shutdown and an accept failure
/// both end the loop; an accepted client is handled concurrently.
pub fn accept_step(event: &ServerEvent) -> (r: ServerDecision)
    ensures
        r == (match event {
            ServerEvent::ShutdownRequested => ServerDecision::Stop,
            ServerEvent::ClientAccepted => ServerDecision::HandleClient,
            ServerEvent::AcceptFailed => ServerDecision::Stop,
        }),
{
    match event {
        ServerEvent::ShutdownRequested => ServerDecision::Stop,
        ServerEvent::ClientAccepted => ServerDecision::HandleClient,
        ServerEvent::AcceptFailed => ServerDecision::Stop,
    }
}

/// What the connection handler must do for one parsed request.
pub enum HandlerAction {
    /// Run one prompt orchestration and answer with its outcome.
    RunPrompt(PromptPayload),
    /// Answer with a snapshot of the daemon status.
    ReportStatus,
    /// Flip the running flag, fire the shutdown notifier, and acknowledge.
    BeginShutdown,
}

#[verifier::ext_equal]
pub ghost enum HandlerActionView {
    RunPrompt { payload: crate::ipc::PromptPayloadView },
    ReportStatus,
    BeginShutdown,
}

impl DeepView for HandlerAction {
    type V = HandlerActionView;

    open spec fn deep_view(&self) -> HandlerActionView {
        match self {
            HandlerAction::RunPrompt(payload) => HandlerActionView::RunPrompt {
                payload: payload.deep_view(),
            },
            HandlerAction::ReportStatus => HandlerActionView::ReportStatus,
            HandlerAction::BeginShutdown => HandlerActionView::BeginShutdown,
        }
    }
}

/// Dispatches one request to the action that answers it.
pub fn dispatch_request(request: DaemonRequest) -> (r: HandlerAction)
    ensures
        r.deep_view() == (match request.deep_view() {
            crate::ipc::DaemonRequestView::Prompt { payload } => HandlerActionView::RunPrompt {
                payload,
            },
            crate::ipc::DaemonRequestView::Status => HandlerActionView::ReportStatus,
            crate::ipc::DaemonRequestView::Shutdown => HandlerActionView::BeginShutdown,
        }),
{
    match request {
        DaemonRequest::Prompt(payload) => HandlerAction::RunPrompt(payload),
        DaemonRequest::Status => HandlerAction::ReportStatus,
        DaemonRequest::Shutdown => HandlerAction::BeginShutdown,
    }
}

/// The status record a daemon starts serving with: running, with the session
/// id the agent assigned and the pid of the agent child.
pub fn initial_status(
    session_id: String,
    socket_path: String,
    agent_command: Vec<String>,
    agent_pid: Option<u32>,
) -> (r: DaemonStatus)
    ensures
        r.deep_view().session_id == Some(session_id@),
        r.deep_view().socket_path == socket_path@,
        r.deep_view().agent_command == agent_command.deep_view(),
        r.deep_view().agent_pid == agent_pid,
        r.deep_view().running == true,
{
    DaemonStatus { session_id: Some(session_id), socket_path, agent_command, agent_pid, running: true }
}

/// Answers a status request: a snapshot of the record, which is read, never
/// changed.
pub fn status_response(status: &DaemonStatus) -> (r: DaemonResponse)
    ensures
        r.deep_view() == (DaemonResponseView::Status { status: status.deep_view() }),
{
    DaemonResponse::Status { status: status.clone() }
}

/// Answers a shutdown request: the running flag is cleared — everything
/// else in the record is kept — and the request is acknowledged.  The
/// boundary code then fires the shutdown notifier, which stops the accept
/// loop and terminates the agent child.
pub fn apply_shutdown(status: &mut DaemonStatus) -> (r: DaemonResponse)
    ensures
        final(status).deep_view() == (crate::ipc::DaemonStatusView {
            running: false,
            ..old(status).deep_view()
        }),
        r.deep_view() == DaemonResponseView::Acknowledged,
{
    status.running = false;
    proof {
        assert(status.deep_view() =~= (crate::ipc::DaemonStatusView {
            running: false,
            ..old(status).deep_view()
        }));
    }
    DaemonResponse::Acknowledged
}

/// Marks the daemon stopped when its accept loop exits for any reason.
pub fn mark_stopped(status: &mut DaemonStatus)
    ensures
        final(status).deep_view() == (crate::ipc::DaemonStatusView {
            running: false,
            ..old(status).deep_view()
        }),
{
    status.running = false;
    proof {
        assert(status.deep_view() =~= (crate::ipc::DaemonStatusView {
            running: false,
            ..old(status).deep_view()
        }));
    }
}

/// The response that surfaces an orchestration failure to the requesting
/// client, as a single error message.
pub fn error_response(error: BridgeError) -> (r: DaemonResponse)
    ensures
        r.deep_view() == (DaemonResponseView::Error {
            message: crate::errors::error_message_view(error.deep_view()),
        }),
{
    DaemonResponse::Error { message: error.message() }
}

/// The response that carries a successful prompt result.
pub fn prompt_response(result: PromptResultPayload) -> (r: DaemonResponse)
    ensures
        r.deep_view() == (DaemonResponseView::Prompt { result: result.deep_view() }),
{
    DaemonResponse::Prompt { result }
}

} // verus!
