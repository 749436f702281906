//! The worker: one request at a time, from the request mailbox through the
//! network to the response mailbox.
//!
//! The worker itself never waits and never touches the network. It is a
//! state machine: the loop that drives it performs the action it was
//! given, waits where the action calls for waiting, and comes back with
//! the event that ended the wait.

use crate::headers::{lines_to_map, Headers};
use crate::messages::{
    HTTPRequest, HTTPResponse, HTTPResponseData, RequestView, ResponseDataView, ResponseView,
};
use crate::transport::{
    call_for, headers_parse, headers_valid, outbound_call, reply_line_view, reply_lines_are_text,
    reply_lines_text, text_of, CallView, OutboundCall, ReplyView, TransportReply,
};
use vstd::prelude::*;
use vstd::utf8::{decode_utf8, valid_utf8};

verus! {

/// Why a worker stopped for good.
#[derive(Clone, Copy, Debug, PartialEq, Eq, Structural)]
pub enum CrashReason {
    /// The request mailbox was found closed.
    RequestMailboxClosed,
    /// A name or a value among the caller's headers does not parse.
    MalformedHeaders,
    /// A header value of the reply is no text.
    UndecodableHeaderValue,
    /// The bytes of the reply's body are no text.
    UndecodableBody,
    /// The response mailbox was found closed.
    ResponseMailboxClosed,
    /// The event is none that can follow the action last given.
    UnexpectedEvent,
}

/// Where the worker is in its cycle.
#[derive(Debug, PartialEq)]
pub enum WorkerState {
    /// Between two cycles.
    Idle,
    /// Waiting for a request.
    Dequeuing,
    /// The call for the request with this token is under way.
    InFlight { req_id: String },
    /// Waiting for the response mailbox to take the response.
    Completing,
    /// Stopped for good.
    Crashed { reason: CrashReason },
}

/// What the driving loop reports to the worker.
#[derive(Debug, PartialEq)]
pub enum WorkerEvent {
    /// The worker is to begin a cycle.
    Scheduled,
    /// This request came out of the request mailbox.
    RequestTaken(HTTPRequest),
    /// The request mailbox is closed for good.
    RequestMailboxClosed,
    /// The call was answered.
    CallCompleted(TransportReply),
    /// The call failed on the way.
    CallFailed,
    /// The response mailbox took the response.
    ResponseAccepted,
    /// The response mailbox is closed for good.
    ResponseMailboxClosed,
}

/// What the worker asks of the driving loop.
#[derive(Debug, PartialEq)]
pub enum WorkerAction {
    /// Wait for the next request and take it out of the request mailbox.
    TakeRequest,
    /// Make this call and wait for its end.
    PerformCall(OutboundCall),
    /// Wait until the response mailbox takes this response.
    PutResponse(HTTPResponse),
    /// The cycle is done: schedule the next one.
    NextCycle,
    /// Stop: the worker has crashed. Close both mailboxes, so that the
    /// caller's next submission and, once the waiting responses are
    /// polled, its next poll fail.
    Halt(CrashReason),
}

/// What a worker state is, as plain values.
pub enum WorkerStateView {
    Idle,
    Dequeuing,
    InFlight { req_id: Seq<char> },
    Completing,
    Crashed { reason: CrashReason },
}

/// What an event is, as plain values.
pub enum WorkerEventView {
    Scheduled,
    RequestTaken(RequestView),
    RequestMailboxClosed,
    CallCompleted(ReplyView),
    CallFailed,
    ResponseAccepted,
    ResponseMailboxClosed,
}

/// What an action is, as plain values.
pub enum WorkerActionView {
    TakeRequest,
    PerformCall(CallView),
    PutResponse(ResponseView),
    NextCycle,
    Halt(CrashReason),
}

impl View for WorkerState {
    type V = WorkerStateView;

    open spec fn view(&self) -> WorkerStateView {
        match self {
            WorkerState::Idle => WorkerStateView::Idle,
            WorkerState::Dequeuing => WorkerStateView::Dequeuing,
            WorkerState::InFlight { req_id } => WorkerStateView::InFlight { req_id: req_id@ },
            WorkerState::Completing => WorkerStateView::Completing,
            WorkerState::Crashed { reason } => WorkerStateView::Crashed { reason: *reason },
        }
    }
}

impl View for WorkerEvent {
    type V = WorkerEventView;

    open spec fn view(&self) -> WorkerEventView {
        match self {
            WorkerEvent::Scheduled => WorkerEventView::Scheduled,
            WorkerEvent::RequestTaken(request) => WorkerEventView::RequestTaken(request@),
            WorkerEvent::RequestMailboxClosed => WorkerEventView::RequestMailboxClosed,
            WorkerEvent::CallCompleted(reply) => WorkerEventView::CallCompleted(reply@),
            WorkerEvent::CallFailed => WorkerEventView::CallFailed,
            WorkerEvent::ResponseAccepted => WorkerEventView::ResponseAccepted,
            WorkerEvent::ResponseMailboxClosed => WorkerEventView::ResponseMailboxClosed,
        }
    }
}

impl View for WorkerAction {
    type V = WorkerActionView;

    open spec fn view(&self) -> WorkerActionView {
        match self {
            WorkerAction::TakeRequest => WorkerActionView::TakeRequest,
            WorkerAction::PerformCall(call) => WorkerActionView::PerformCall(call@),
            WorkerAction::PutResponse(response) => WorkerActionView::PutResponse(response@),
            WorkerAction::NextCycle => WorkerActionView::NextCycle,
            WorkerAction::Halt(reason) => WorkerActionView::Halt(*reason),
        }
    }
}

/// The response to a call that failed on the way: the token, and the mark
/// of failure.
pub open spec fn failure_response(req_id: Seq<char>) -> ResponseView {
    ResponseView { request_id: req_id, data: Err(()) }
}

/// The response to an answered call, or the reason for which the reply
/// cannot be turned into one. The status code is passed on whatever it
/// is; of two header lines with one name the later one stays; the body
/// is the text that its bytes encode in UTF-8.
pub open spec fn reply_response(req_id: Seq<char>, reply: ReplyView) -> Result<
    ResponseView,
    CrashReason,
> {
    if !reply_lines_are_text(reply.header_lines) {
        Err(CrashReason::UndecodableHeaderValue)
    } else if !valid_utf8(reply.body) {
        Err(CrashReason::UndecodableBody)
    } else {
        Ok(
            ResponseView {
                request_id: req_id,
                data: Ok(
                    ResponseDataView {
                        all_headers: lines_to_map(reply_lines_text(reply.header_lines)),
                        status_code: reply.status_code,
                        body: decode_utf8(reply.body),
                    },
                ),
            },
        )
    }
}

/// Builds the response to a call that failed on the way.
pub fn failed_call_response(req_id: String) -> (response: HTTPResponse)
    ensures
        response@ == failure_response(req_id@),
{
    HTTPResponse { request_id: req_id, data: Err(()) }
}

/// Enters the reply's header lines into a mapping, one after the other,
/// or finds a value that is no text.
fn collect_headers(lines: &Vec<(String, Option<String>)>) -> (collected: Option<Headers>)
    ensures
        ({
            let views = lines@.map_values(|line: (String, Option<String>)| reply_line_view(line));
            match collected {
                Some(headers) => reply_lines_are_text(views) && headers@ == lines_to_map(
                    reply_lines_text(views),
                ),
                None => !reply_lines_are_text(views),
            }
        }),
{
    let ghost views = lines@.map_values(|line: (String, Option<String>)| reply_line_view(line));
    let mut headers = Headers::new();
    let mut i: usize = 0;
    while i < lines.len()
        invariant
            i <= lines.len(),
            views == lines@.map_values(|line: (String, Option<String>)| reply_line_view(line)),
            forall|j: int| 0 <= j < i ==> (#[trigger] views[j]).1 is Some,
            headers@ == lines_to_map(reply_lines_text(views).subrange(0, i as int)),
        decreases lines.len() - i,
    {
        match &lines[i].1 {
            Some(text) => {
                let name = lines[i].0.clone();
                let value = text.clone();
                headers.insert(name, value);
                proof {
                    let done = reply_lines_text(views).subrange(0, i + 1);
                    assert(done.drop_last() =~= reply_lines_text(views).subrange(0, i as int));
                    assert(done.last() == (name@, value@));
                }
            },
            None => {
                assert(views[i as int].1 is None);
                return None;
            },
        }
        i += 1;
    }
    assert(reply_lines_text(views).subrange(0, i as int) =~= reply_lines_text(views));
    Some(headers)
}

/// Builds the response to an answered call, or says why the worker has to
/// stop over the reply.
pub fn answered_call_response(req_id: String, reply: TransportReply) -> (built: Result<
    HTTPResponse,
    CrashReason,
>)
    ensures
        match built {
            Ok(response) => reply_response(req_id@, reply@) == Ok::<ResponseView, CrashReason>(
                response@,
            ),
            Err(reason) => reply_response(req_id@, reply@) == Err::<ResponseView, CrashReason>(
                reason,
            ),
        },
{
    let all_headers = match collect_headers(&reply.header_lines) {
        Some(headers) => headers,
        None => {
            return Err(CrashReason::UndecodableHeaderValue);
        },
    };
    let body = match text_of(reply.body) {
        Some(text) => text,
        None => {
            return Err(CrashReason::UndecodableBody);
        },
    };
    Ok(
        HTTPResponse {
            request_id: req_id,
            data: Ok(HTTPResponseData { all_headers, status_code: reply.status_code, body }),
        },
    )
}

/// The state and the action that follow a crash.
pub open spec fn crash(reason: CrashReason) -> (WorkerStateView, WorkerActionView) {
    (WorkerStateView::Crashed { reason }, WorkerActionView::Halt(reason))
}

/// The worker's rule: the state it goes to and the action it asks for,
/// given the state it is in and the event reported to it.
///
/// A cycle runs Idle, Dequeuing, InFlight, Completing and back to Idle. A
/// call that failed on the way is answered like any other request and the
/// cycle goes on. A closed mailbox, headers that do not parse, a reply
/// that is no text, and an event that cannot follow the action last given
/// end in Crashed, which nothing leaves.
pub open spec fn step_spec(state: WorkerStateView, event: WorkerEventView) -> (
    WorkerStateView,
    WorkerActionView,
) {
    match state {
        WorkerStateView::Crashed { reason } => crash(reason),
        WorkerStateView::Idle => match event {
            WorkerEventView::Scheduled => (
                WorkerStateView::Dequeuing,
                WorkerActionView::TakeRequest,
            ),
            _ => crash(CrashReason::UnexpectedEvent),
        },
        WorkerStateView::Dequeuing => match event {
            WorkerEventView::RequestTaken(request) => if headers_valid(request.headers) {
                (
                    WorkerStateView::InFlight { req_id: request.req_id },
                    WorkerActionView::PerformCall(call_for(request)),
                )
            } else {
                crash(CrashReason::MalformedHeaders)
            },
            WorkerEventView::RequestMailboxClosed => crash(CrashReason::RequestMailboxClosed),
            _ => crash(CrashReason::UnexpectedEvent),
        },
        WorkerStateView::InFlight { req_id } => match event {
            WorkerEventView::CallCompleted(reply) => match reply_response(req_id, reply) {
                Ok(response) => (
                    WorkerStateView::Completing,
                    WorkerActionView::PutResponse(response),
                ),
                Err(reason) => crash(reason),
            },
            WorkerEventView::CallFailed => (
                WorkerStateView::Completing,
                WorkerActionView::PutResponse(failure_response(req_id)),
            ),
            _ => crash(CrashReason::UnexpectedEvent),
        },
        WorkerStateView::Completing => match event {
            WorkerEventView::ResponseAccepted => (
                WorkerStateView::Idle,
                WorkerActionView::NextCycle,
            ),
            WorkerEventView::ResponseMailboxClosed => crash(CrashReason::ResponseMailboxClosed),
            _ => crash(CrashReason::UnexpectedEvent),
        },
    }
}

fn crashed(reason: CrashReason) -> (next: (WorkerState, WorkerAction))
    ensures
        (next.0@, next.1@) == crash(reason),
{
    (WorkerState::Crashed { reason }, WorkerAction::Halt(reason))
}

impl WorkerState {
    /// The state of a worker that has not begun its first cycle.
    pub fn new() -> (state: WorkerState)
        ensures
            state@ == WorkerStateView::Idle,
    {
        WorkerState::Idle
    }

    /// Whether the worker has stopped for good.
    pub fn is_crashed(&self) -> (crashed: bool)
        ensures
            crashed == (self@ is Crashed),
    {
        match self {
            WorkerState::Crashed { .. } => true,
            _ => false,
        }
    }

    /// Takes one step: from this state and the event reported, to the next
    /// state and the action that the driving loop is to perform.
    pub fn step(self, event: WorkerEvent) -> (next: (WorkerState, WorkerAction))
        ensures
            (next.0@, next.1@) == step_spec(self@, event@),
    {
        match self {
            WorkerState::Crashed { reason } => crashed(reason),
            WorkerState::Idle => match event {
                WorkerEvent::Scheduled => (WorkerState::Dequeuing, WorkerAction::TakeRequest),
                _ => crashed(CrashReason::UnexpectedEvent),
            },
            WorkerState::Dequeuing => match event {
                WorkerEvent::RequestTaken(request) => {
                    let parses = match &request {
                        HTTPRequest::GET(data) => headers_parse(&data.not_req_id_headers),
                        HTTPRequest::POST(data) => headers_parse(&data.not_req_id_headers),
                    };
                    if parses {
                        let req_id = request.req_id().clone();
                        let call = outbound_call(request);
                        (WorkerState::InFlight { req_id }, WorkerAction::PerformCall(call))
                    } else {
                        crashed(CrashReason::MalformedHeaders)
                    }
                },
                WorkerEvent::RequestMailboxClosed => crashed(CrashReason::RequestMailboxClosed),
                _ => crashed(CrashReason::UnexpectedEvent),
            },
            WorkerState::InFlight { req_id } => match event {
                WorkerEvent::CallCompleted(reply) => match answered_call_response(req_id, reply) {
                    Ok(response) => (WorkerState::Completing, WorkerAction::PutResponse(response)),
                    Err(reason) => crashed(reason),
                },
                WorkerEvent::CallFailed => (
                    WorkerState::Completing,
                    WorkerAction::PutResponse(failed_call_response(req_id)),
                ),
                _ => crashed(CrashReason::UnexpectedEvent),
            },
            WorkerState::Completing => match event {
                WorkerEvent::ResponseAccepted => (WorkerState::Idle, WorkerAction::NextCycle),
                WorkerEvent::ResponseMailboxClosed => crashed(CrashReason::ResponseMailboxClosed),
                _ => crashed(CrashReason::UnexpectedEvent),
            },
        }
    }
}

} // verus!
