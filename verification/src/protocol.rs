//! The bridge as a whole: caller, mailboxes and worker, one step at a
//! time.
//!
//! Caller and worker run side by side, and what the bridge promises is a
//! promise about every way in which their steps can follow one another.
//! This file states the bridge as a transition system over plain values:
//! each step is one operation of the caller or one move of the loop that
//! drives the worker. The worker's moves are those of
//! [`step_spec`](crate::worker::step_spec), a poll hands out what
//! [`poll_result`](crate::http_client::poll_result) says, and a mailbox
//! takes and gives as [`mailbox_offer`] and [`mailbox_take`] say: it is a
//! bounded queue that gives out its messages in the order in which it
//! took them, until the loop of a crashed worker closes it.

use crate::http_client::{poll_result, MailboxClosed};
use crate::mailbox::{mailbox_offer, mailbox_take, SendFailure};
use crate::messages::{RequestView, ResponseView};
use crate::transport::{headers_valid, ReplyView};
use crate::worker::{
    reply_response, step_spec, WorkerActionView, WorkerEventView, WorkerStateView,
};
use vstd::prelude::*;

verus! {

/// The state of a bridge with one worker.
pub struct Bridge {
    /// The room in each mailbox.
    pub capacity: nat,
    /// The request mailbox, oldest request first.
    pub requests: Seq<RequestView>,
    /// The state of the worker.
    pub worker: WorkerStateView,
    /// The action that the worker gave last and that its loop has yet to
    /// bring to an end.
    pub owed: WorkerActionView,
    /// The response mailbox, oldest response first.
    pub responses: Seq<ResponseView>,
    /// Whether the two mailboxes are closed for good.
    pub closed: bool,
    /// The tokens of the requests that the bridge accepted, in the order
    /// of their submission.
    pub accepted: Seq<Seq<char>>,
    /// The responses that polls handed to the caller, in the order of
    /// their delivery.
    pub delivered: Seq<ResponseView>,
}

/// One step of a bridge.
pub enum Step {
    /// The caller submits a request.
    Submit(RequestView),
    /// The caller polls for a response.
    Poll,
    /// The worker's loop begins a cycle.
    Schedule,
    /// The worker's loop takes the oldest request out of the request
    /// mailbox.
    Take,
    /// The call in flight is answered with this reply.
    Answer(ReplyView),
    /// The call in flight fails on the way.
    Fail,
    /// The response mailbox takes the worker's response.
    Put,
    /// The loop of the crashed worker closes both mailboxes.
    Close,
}

/// A bridge whose mailboxes are empty and whose worker has not begun its
/// first cycle.
pub open spec fn init(capacity: nat) -> Bridge {
    Bridge {
        capacity,
        requests: Seq::empty(),
        worker: WorkerStateView::Idle,
        owed: WorkerActionView::NextCycle,
        responses: Seq::empty(),
        closed: false,
        accepted: Seq::empty(),
        delivered: Seq::empty(),
    }
}

/// What a submission returns to the caller in this state.
pub open spec fn submit_returns(bridge: Bridge, request: RequestView) -> Result<
    (),
    SendFailure<RequestView>,
> {
    mailbox_offer(bridge.requests, bridge.capacity, bridge.closed, request).1
}

/// What a poll returns to the caller in this state.
pub open spec fn poll_returns(bridge: Bridge) -> Result<Option<ResponseView>, MailboxClosed> {
    poll_result(mailbox_take(bridge.responses, bridge.closed).1)
}

/// The bridge after the worker was told of an event.
pub open spec fn worker_told(bridge: Bridge, event: WorkerEventView) -> Bridge {
    let moved = step_spec(bridge.worker, event);
    Bridge { worker: moved.0, owed: moved.1, ..bridge }
}

/// Whether the step can be taken in this state. The caller can always
/// submit and poll. The worker's loop does what the worker asked for
/// last, and waits while a mailbox cannot serve it; told to halt, it
/// closes the mailboxes, once.
pub open spec fn enabled(bridge: Bridge, step: Step) -> bool {
    match step {
        Step::Submit(_) => true,
        Step::Poll => true,
        Step::Schedule => bridge.owed is NextCycle,
        Step::Take => bridge.owed is TakeRequest && bridge.requests.len() > 0,
        Step::Answer(_) => bridge.owed is PerformCall,
        Step::Fail => bridge.owed is PerformCall,
        Step::Put => bridge.owed is PutResponse && bridge.responses.len() < bridge.capacity,
        Step::Close => bridge.owed is Halt && !bridge.closed,
    }
}

/// The state after the step. A step that cannot be taken changes
/// nothing.
pub open spec fn next(bridge: Bridge, step: Step) -> Bridge {
    if !enabled(bridge, step) {
        bridge
    } else {
        match step {
            Step::Submit(request) => {
                let offered = mailbox_offer(
                    bridge.requests,
                    bridge.capacity,
                    bridge.closed,
                    request,
                );
                Bridge {
                    requests: offered.0,
                    accepted: if offered.1 is Ok {
                        bridge.accepted.push(request.req_id)
                    } else {
                        bridge.accepted
                    },
                    ..bridge
                }
            },
            Step::Poll => {
                let taken = mailbox_take(bridge.responses, bridge.closed);
                Bridge {
                    responses: taken.0,
                    delivered: match poll_result(taken.1) {
                        Ok(Some(response)) => bridge.delivered.push(response),
                        _ => bridge.delivered,
                    },
                    ..bridge
                }
            },
            Step::Schedule => worker_told(bridge, WorkerEventView::Scheduled),
            Step::Take => {
                let taken = mailbox_take(bridge.requests, bridge.closed);
                worker_told(
                    Bridge { requests: taken.0, ..bridge },
                    WorkerEventView::RequestTaken(bridge.requests.first()),
                )
            },
            Step::Answer(reply) => worker_told(bridge, WorkerEventView::CallCompleted(reply)),
            Step::Fail => worker_told(bridge, WorkerEventView::CallFailed),
            Step::Put => worker_told(
                Bridge { responses: bridge.responses.push(bridge.owed->PutResponse_0), ..bridge },
                WorkerEventView::ResponseAccepted,
            ),
            Step::Close => Bridge { closed: true, ..bridge },
        }
    }
}

/// The state after a sequence of steps.
pub open spec fn run(bridge: Bridge, steps: Seq<Step>) -> Bridge
    decreases steps.len(),
{
    if steps.len() == 0 {
        bridge
    } else {
        next(run(bridge, steps.drop_last()), steps.last())
    }
}

/// The tokens of a sequence of requests.
pub open spec fn request_tokens(requests: Seq<RequestView>) -> Seq<Seq<char>> {
    requests.map_values(|request: RequestView| request.req_id)
}

/// The tokens of a sequence of responses.
pub open spec fn response_tokens(responses: Seq<ResponseView>) -> Seq<Seq<char>> {
    responses.map_values(|response: ResponseView| response.request_id)
}

/// The token of the request that the worker has taken and not yet
/// answered, if there is one.
pub open spec fn in_hand(bridge: Bridge) -> Seq<Seq<char>> {
    match bridge.owed {
        WorkerActionView::PerformCall(call) => seq![call.added_header.1],
        WorkerActionView::PutResponse(response) => seq![response.request_id],
        _ => Seq::empty(),
    }
}

/// The tokens of the requests that have been answered, in the order of
/// the answers: first those delivered, then those waiting in the response
/// mailbox.
pub open spec fn answered(bridge: Bridge) -> Seq<Seq<char>> {
    response_tokens(bridge.delivered) + response_tokens(bridge.responses)
}

/// The worker's state and the action it gave last belong together.
pub open spec fn coherent(worker: WorkerStateView, owed: WorkerActionView) -> bool {
    match worker {
        WorkerStateView::Idle => owed is NextCycle,
        WorkerStateView::Dequeuing => owed is TakeRequest,
        WorkerStateView::InFlight { req_id } => owed matches WorkerActionView::PerformCall(call)
            && call.added_header.1 == req_id,
        WorkerStateView::Completing => owed is PutResponse,
        WorkerStateView::Crashed { reason } => owed == WorkerActionView::Halt(reason),
    }
}

/// What holds of a bridge in every state it can reach: no mailbox holds
/// more than it has room for; the mailboxes are closed only once the
/// worker has crashed; every answer made so far is to the request of the
/// same place in the order of submission; and while the worker is alive,
/// the requests not yet answered are the one in the worker's hand and
/// those in the request mailbox, in that order.
pub open spec fn consistent(bridge: Bridge) -> bool {
    &&& bridge.requests.len() <= bridge.capacity
    &&& bridge.responses.len() <= bridge.capacity
    &&& coherent(bridge.worker, bridge.owed)
    &&& bridge.closed ==> bridge.worker is Crashed
    &&& answered(bridge).is_prefix_of(bridge.accepted)
    &&& !(bridge.worker is Crashed) ==> bridge.accepted == answered(bridge) + in_hand(bridge)
        + request_tokens(bridge.requests)
}

/// A step keeps a consistent bridge consistent.
pub proof fn lemma_step_keeps_consistent(bridge: Bridge, step: Step)
    requires
        consistent(bridge),
    ensures
        consistent(next(bridge, step)),
{
    let after = next(bridge, step);
    if enabled(bridge, step) {
        match step {
            Step::Submit(request) => {
                if !bridge.closed && bridge.requests.len() < bridge.capacity {
                    assert(request_tokens(after.requests) =~= request_tokens(
                        bridge.requests,
                    ).push(request.req_id));
                    if !(bridge.worker is Crashed) {
                        assert(after.accepted =~= answered(after) + in_hand(after)
                            + request_tokens(after.requests));
                    }
                }
            },
            Step::Poll => {
                if bridge.responses.len() > 0 {
                    let first = bridge.responses.first();
                    assert(response_tokens(after.delivered) =~= response_tokens(
                        bridge.delivered,
                    ).push(first.request_id));
                    assert(response_tokens(after.responses) =~= response_tokens(
                        bridge.responses,
                    ).drop_first());
                    assert(answered(after) =~= answered(bridge));
                }
            },
            Step::Schedule => {},
            Step::Take => {
                let request = bridge.requests.first();
                assert(request_tokens(after.requests) =~= request_tokens(
                    bridge.requests,
                ).drop_first());
                if headers_valid(request.headers) {
                    assert(in_hand(after) =~= seq![request.req_id]);
                    assert(after.accepted =~= answered(after) + in_hand(after) + request_tokens(
                        after.requests,
                    ));
                }
            },
            Step::Answer(reply) => {
                let req_id = bridge.worker->InFlight_req_id;
                if reply_response(req_id, reply) is Ok {
                    assert(in_hand(after) =~= in_hand(bridge));
                }
            },
            Step::Fail => {
                assert(in_hand(after) =~= in_hand(bridge));
            },
            Step::Put => {
                let response = bridge.owed->PutResponse_0;
                assert(response_tokens(after.responses) =~= response_tokens(
                    bridge.responses,
                ).push(response.request_id));
                assert(answered(after) =~= answered(bridge) + in_hand(bridge));
                assert(in_hand(after) =~= Seq::<Seq<char>>::empty());
                assert(after.accepted =~= answered(after) + in_hand(after) + request_tokens(
                    after.requests,
                ));
            },
            Step::Close => {},
        }
    }
}

/// Every state that a bridge reaches from its beginning is consistent.
pub proof fn lemma_run_consistent(capacity: nat, steps: Seq<Step>)
    ensures
        consistent(run(init(capacity), steps)),
    decreases steps.len(),
{
    if steps.len() == 0 {
        assert(answered(init(capacity)) =~= Seq::<Seq<char>>::empty());
        assert(init(capacity).accepted =~= answered(init(capacity)) + in_hand(init(capacity))
            + request_tokens(init(capacity).requests));
    } else {
        lemma_run_consistent(capacity, steps.drop_last());
        lemma_step_keeps_consistent(run(init(capacity), steps.drop_last()), steps.last());
    }
}

} // verus!
