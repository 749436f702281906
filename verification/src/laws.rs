//! What the bridge guarantees, proved of every state that it can reach.

use crate::http_client::MailboxClosed;
use crate::mailbox::SendFailure;
use crate::messages::{RequestView, ResponseView};
use crate::protocol::{
    answered, consistent, enabled, in_hand, init, lemma_run_consistent,
    lemma_step_keeps_consistent, next, poll_returns, request_tokens, response_tokens, run,
    submit_returns, Bridge, Step,
};
use crate::transport::{headers_valid, reply_lines_are_text, CallView};
use crate::worker::WorkerActionView;
use vstd::prelude::*;
use vstd::utf8::valid_utf8;

verus! {

/// Order and correlation: however the steps of caller and worker follow
/// one another, the responses handed to the caller answer the accepted
/// requests one for one and in the order of submission. The response
/// delivered in place `i` carries the token of the request accepted in
/// place `i`, and so do the responses that still wait in the mailbox,
/// counted on from the last one delivered.
pub proof fn lemma_responses_follow_submissions(capacity: nat, steps: Seq<Step>)
    ensures
        ({
            let bridge = run(init(capacity), steps);
            &&& bridge.delivered.len() + bridge.responses.len() <= bridge.accepted.len()
            &&& response_tokens(bridge.delivered).is_prefix_of(bridge.accepted)
            &&& forall|i: int|
                0 <= i < bridge.delivered.len() ==> (#[trigger] bridge.delivered[i]).request_id
                    == bridge.accepted[i]
            &&& forall|i: int|
                0 <= i < bridge.responses.len() ==> (#[trigger] bridge.responses[i]).request_id
                    == bridge.accepted[bridge.delivered.len() + i]
        }),
{
    let bridge = run(init(capacity), steps);
    lemma_run_consistent(capacity, steps);
    let made = answered(bridge);
    assert(made.len() == bridge.delivered.len() + bridge.responses.len());
    assert forall|i: int| 0 <= i < bridge.delivered.len() implies (
    #[trigger] bridge.delivered[i]).request_id == bridge.accepted[i] by {
        assert(made[i] == response_tokens(bridge.delivered)[i]);
        assert(made[i] == bridge.accepted.subrange(0, made.len() as int)[i]);
    }
    assert forall|i: int| 0 <= i < bridge.responses.len() implies (
    #[trigger] bridge.responses[i]).request_id == bridge.accepted[bridge.delivered.len() + i] by {
        let at = bridge.delivered.len() + i;
        assert(made[at] == response_tokens(bridge.responses)[i]);
        assert(made[at] == bridge.accepted.subrange(0, made.len() as int)[at]);
    }
    assert(response_tokens(bridge.delivered) =~= bridge.accepted.subrange(
        0,
        bridge.delivered.len() as int,
    ));
}

/// No loss while the worker lives: in every state that the bridge can
/// reach with its worker alive, each accepted request is in exactly one
/// place. Either its response has been delivered or waits in the response
/// mailbox, or the request is in the worker's hand or waits in the
/// request mailbox; and the tokens found in these places, in this order,
/// are the tokens accepted, in the order of submission.
pub proof fn lemma_every_request_is_accounted_for(capacity: nat, steps: Seq<Step>)
    ensures
        ({
            let bridge = run(init(capacity), steps);
            !(bridge.worker is Crashed) ==> bridge.accepted == response_tokens(bridge.delivered)
                + response_tokens(bridge.responses) + in_hand(bridge) + request_tokens(
                bridge.requests,
            )
        }),
{
    lemma_run_consistent(capacity, steps);
}

/// No response twice: where the caller gave no token to two requests, no
/// token comes back in two responses.
pub proof fn lemma_no_token_is_delivered_twice(capacity: nat, steps: Seq<Step>)
    requires
        run(init(capacity), steps).accepted.no_duplicates(),
    ensures
        response_tokens(run(init(capacity), steps).delivered).no_duplicates(),
{
    let bridge = run(init(capacity), steps);
    lemma_responses_follow_submissions(capacity, steps);
    let tokens = response_tokens(bridge.delivered);
    assert forall|i: int, j: int|
        0 <= i < tokens.len() && 0 <= j < tokens.len() && i != j implies tokens[i]
        != tokens[j] by {
        assert(tokens[i] == bridge.delivered[i].request_id);
        assert(tokens[j] == bridge.delivered[j].request_id);
    }
}

/// A poll with nothing pending, on mailboxes that are open, returns
/// nothing and changes nothing.
pub proof fn lemma_poll_finds_nothing(bridge: Bridge)
    requires
        bridge.responses.len() == 0,
        !bridge.closed,
    ensures
        poll_returns(bridge) == Ok::<Option<ResponseView>, MailboxClosed>(None),
        next(bridge, Step::Poll) == bridge,
{
    assert(next(bridge, Step::Poll).responses =~= bridge.responses);
}

/// A poll with a response pending hands out the oldest one and takes it
/// out of the mailbox: what the next poll finds are the responses that
/// came after it.
pub proof fn lemma_poll_takes_the_oldest(bridge: Bridge)
    requires
        bridge.responses.len() > 0,
    ensures
        poll_returns(bridge) == Ok::<Option<ResponseView>, MailboxClosed>(
            Some(bridge.responses.first()),
        ),
        next(bridge, Step::Poll).responses == bridge.responses.drop_first(),
        next(bridge, Step::Poll).delivered == bridge.delivered.push(bridge.responses.first()),
        bridge.responses.len() == 1 && !bridge.closed ==> poll_returns(
            next(bridge, Step::Poll),
        ) == Ok::<Option<ResponseView>, MailboxClosed>(None),
        bridge.responses.len() > 1 ==> poll_returns(next(bridge, Step::Poll)) == Ok::<
            Option<ResponseView>,
            MailboxClosed,
        >(Some(bridge.responses[1])),
{
}

/// Backpressure: a request submitted to a full request mailbox comes back
/// with the error, and the bridge is as it was.
pub proof fn lemma_full_mailbox_refuses(bridge: Bridge, request: RequestView)
    requires
        bridge.requests.len() >= bridge.capacity,
        !bridge.closed,
    ensures
        submit_returns(bridge, request) == Err::<(), SendFailure<RequestView>>(
            SendFailure::Full(request),
        ),
        next(bridge, Step::Submit(request)) == bridge,
{
    assert(next(bridge, Step::Submit(request)).requests =~= bridge.requests);
}

/// A request submitted to a request mailbox with room is accepted, and
/// waits behind the requests submitted before it.
pub proof fn lemma_mailbox_with_room_accepts(bridge: Bridge, request: RequestView)
    requires
        bridge.requests.len() < bridge.capacity,
        !bridge.closed,
    ensures
        submit_returns(bridge, request) == Ok::<(), SendFailure<RequestView>>(()),
        next(bridge, Step::Submit(request)).requests == bridge.requests.push(request),
        next(bridge, Step::Submit(request)).accepted == bridge.accepted.push(request.req_id),
{
}

/// The steps of a caller that submits the given requests one after the
/// other.
pub open spec fn submissions(requests: Seq<RequestView>) -> Seq<Step> {
    requests.map_values(|request: RequestView| Step::Submit(request))
}

/// Backpressure before the worker consumes: of the requests submitted to
/// a fresh bridge while the worker takes none, those that fit into the
/// request mailbox are accepted, in their order, and every later one is
/// refused.
pub proof fn lemma_submissions_beyond_capacity_are_refused(
    capacity: nat,
    requests: Seq<RequestView>,
)
    ensures
        ({
            let bridge = run(init(capacity), submissions(requests));
            let fit = if requests.len() <= capacity {
                requests.len() as int
            } else {
                capacity as int
            };
            &&& bridge.capacity == capacity
            &&& !bridge.closed
            &&& bridge.requests == requests.subrange(0, fit)
            &&& bridge.accepted == request_tokens(requests.subrange(0, fit))
            &&& bridge.responses.len() == 0
            &&& bridge.delivered.len() == 0
            &&& bridge.owed is NextCycle
        }),
    decreases requests.len(),
{
    let steps = submissions(requests);
    if requests.len() == 0 {
        assert(init(capacity).requests =~= requests.subrange(0, 0));
        assert(init(capacity).accepted =~= request_tokens(requests.subrange(0, 0)));
    } else {
        let front = requests.drop_last();
        let last = requests.last();
        lemma_submissions_beyond_capacity_are_refused(capacity, front);
        assert(steps.drop_last() =~= submissions(front));
        assert(steps.last() == Step::Submit(last));
        let before = run(init(capacity), submissions(front));
        let after = run(init(capacity), steps);
        assert(after == next(before, Step::Submit(last)));
        if front.len() < capacity {
            let fit = requests.len() as int;
            assert(front.subrange(0, front.len() as int) =~= front);
            assert(before.requests == front);
            assert(requests.subrange(0, fit) =~= front.push(last));
            assert(request_tokens(front.push(last)) =~= request_tokens(front).push(last.req_id));
            lemma_mailbox_with_room_accepts(before, last);
        } else {
            let fit = capacity as int;
            assert(front.subrange(0, fit) =~= requests.subrange(0, fit));
            assert(before.requests.len() == capacity);
            lemma_full_mailbox_refuses(before, last);
        }
    }
}

/// The worker's end is the bridge's end: once the worker has crashed, its
/// loop can close the mailboxes, and no other step of the worker is left
/// to take.
pub proof fn lemma_crashed_worker_closes(bridge: Bridge, step: Step)
    requires
        consistent(bridge),
        bridge.worker is Crashed,
    ensures
        bridge.closed || enabled(bridge, Step::Close),
        next(bridge, Step::Close).closed,
        next(bridge, Step::Close).worker is Crashed,
        step is Schedule || step is Take || step is Answer || step is Fail || step is Put ==> next(
            bridge,
            step,
        ) == bridge,
{
}

/// Closed is closed for good: no step opens the mailboxes again.
pub proof fn lemma_closed_stays_closed(bridge: Bridge, steps: Seq<Step>)
    requires
        bridge.closed,
    ensures
        run(bridge, steps).closed,
    decreases steps.len(),
{
    if steps.len() > 0 {
        lemma_closed_stays_closed(bridge, steps.drop_last());
    }
}

/// A dead worker is reported: once the mailboxes are closed, a request
/// submitted comes back with the error and nothing is accepted, and a
/// poll with nothing pending fails with the error. The responses that
/// still wait are handed out before that, as
/// `lemma_poll_takes_the_oldest` says.
pub proof fn lemma_closed_bridge_fails(bridge: Bridge, request: RequestView)
    requires
        bridge.closed,
    ensures
        submit_returns(bridge, request) == Err::<(), SendFailure<RequestView>>(
            SendFailure::Closed(request),
        ),
        next(bridge, Step::Submit(request)) == bridge,
        bridge.responses.len() == 0 ==> poll_returns(bridge) == Err::<
            Option<ResponseView>,
            MailboxClosed,
        >(MailboxClosed),
        bridge.responses.len() == 0 ==> next(bridge, Step::Poll) == bridge,
{
    assert(next(bridge, Step::Submit(request)).requests =~= bridge.requests);
    if bridge.responses.len() == 0 {
        assert(next(bridge, Step::Poll).responses =~= bridge.responses);
    }
}

/// The steps of a caller that polls `count` times.
pub open spec fn polls(count: nat) -> Seq<Step> {
    Seq::new(count, |i: int| Step::Poll)
}

/// Polls hand out the waiting responses from the oldest on, one each, and
/// change nothing else.
pub proof fn lemma_polls_drain(bridge: Bridge, count: nat)
    requires
        count <= bridge.responses.len(),
    ensures
        ({
            let after = run(bridge, polls(count));
            &&& after.responses == bridge.responses.skip(count as int)
            &&& after.delivered == bridge.delivered + bridge.responses.take(count as int)
            &&& after.closed == bridge.closed
            &&& after.requests == bridge.requests
            &&& after.accepted == bridge.accepted
            &&& after.capacity == bridge.capacity
            &&& after.worker == bridge.worker
            &&& after.owed == bridge.owed
        }),
    decreases count,
{
    if count == 0 {
        assert(bridge.responses.skip(0) =~= bridge.responses);
        assert(bridge.delivered + bridge.responses.take(0) =~= bridge.delivered);
    } else {
        let fewer = (count - 1) as nat;
        lemma_polls_drain(bridge, fewer);
        assert(polls(count).drop_last() =~= polls(fewer));
        let before = run(bridge, polls(fewer));
        let after = run(bridge, polls(count));
        assert(after == next(before, Step::Poll));
        assert(before.responses.first() == bridge.responses[count - 1]);
        assert(after.responses =~= bridge.responses.skip(count as int));
        assert(after.delivered =~= bridge.delivered + bridge.responses.take(count as int));
    }
}

/// A dead worker is reported to the caller: once the worker has crashed
/// and its loop has closed the mailboxes, the caller is handed the
/// responses that still wait, oldest first; after that every poll fails
/// with the error, and from the closing on every submission comes back
/// with the error.
pub proof fn lemma_dead_worker_is_reported(bridge: Bridge, request: RequestView)
    requires
        consistent(bridge),
        bridge.worker is Crashed,
    ensures
        ({
            let closed = next(bridge, Step::Close);
            let drained = run(closed, polls(bridge.responses.len()));
            &&& closed.closed
            &&& submit_returns(closed, request) == Err::<(), SendFailure<RequestView>>(
                SendFailure::Closed(request),
            )
            &&& drained.delivered == bridge.delivered + bridge.responses
            &&& drained.responses.len() == 0
            &&& poll_returns(drained) == Err::<Option<ResponseView>, MailboxClosed>(MailboxClosed)
            &&& next(drained, Step::Poll) == drained
            &&& submit_returns(drained, request) == Err::<(), SendFailure<RequestView>>(
                SendFailure::Closed(request),
            )
        }),
{
    let closed = next(bridge, Step::Close);
    lemma_polls_drain(closed, closed.responses.len());
    let drained = run(closed, polls(bridge.responses.len()));
    assert(bridge.responses.take(bridge.responses.len() as int) =~= bridge.responses);
    lemma_closed_bridge_fails(drained, request);
}

/// A way in which calls end: for each call, the answer or the failure
/// that ends it.
pub open spec fn ends_calls_well(transport: spec_fn(CallView) -> Step) -> bool {
    forall|call: CallView|
        match #[trigger] transport(call) {
            Step::Fail => true,
            Step::Answer(reply) => reply_lines_are_text(reply.header_lines) && valid_utf8(
                reply.body,
            ),
            _ => false,
        }
}

/// Every request in the request mailbox has headers that parse.
pub open spec fn queue_parses(bridge: Bridge) -> bool {
    forall|i: int|
        0 <= i < bridge.requests.len() ==> headers_valid((#[trigger] bridge.requests[i]).headers)
}

/// The step of a bridge in which nobody is kept waiting: the caller polls
/// while a response is pending; else the worker's loop goes on with what
/// the worker asked for, and a call ends as `transport` has it.
pub open spec fn fair_step(bridge: Bridge, transport: spec_fn(CallView) -> Step) -> Step {
    if bridge.responses.len() > 0 {
        Step::Poll
    } else {
        match bridge.owed {
            WorkerActionView::NextCycle => if bridge.requests.len() > 0 {
                Step::Schedule
            } else {
                Step::Poll
            },
            WorkerActionView::TakeRequest => Step::Take,
            WorkerActionView::PerformCall(call) => transport(call),
            WorkerActionView::PutResponse(_) => Step::Put,
            WorkerActionView::Halt(_) => Step::Close,
        }
    }
}

/// The first `count` steps of a bridge in which nobody is kept waiting.
pub open spec fn fair_steps(
    bridge: Bridge,
    transport: spec_fn(CallView) -> Step,
    count: nat,
) -> Seq<Step>
    decreases count,
{
    if count == 0 {
        Seq::empty()
    } else {
        let before = fair_steps(bridge, transport, (count - 1) as nat);
        before.push(fair_step(run(bridge, before), transport))
    }
}

/// The number of steps that are left to take until every request that is
/// under way has been delivered its response.
pub open spec fn steps_left(bridge: Bridge) -> nat {
    let in_worker: int = match bridge.owed {
        WorkerActionView::TakeRequest => if bridge.requests.len() > 0 {
            -1
        } else {
            0
        },
        WorkerActionView::PerformCall(_) => 4,
        WorkerActionView::PutResponse(_) => 3,
        _ => 0,
    };
    (6 * bridge.requests.len() + bridge.responses.len() + in_worker) as nat
}

/// What the liveness argument carries from step to step.
pub open spec fn serviceable(bridge: Bridge) -> bool {
    &&& consistent(bridge)
    &&& bridge.capacity > 0
    &&& !(bridge.worker is Crashed)
    &&& queue_parses(bridge)
}

/// One fair step of a bridge brings it nearer to the state in which
/// nothing is under way, accepts nothing new, and leaves the worker
/// alive.
pub proof fn lemma_fair_step_makes_progress(bridge: Bridge, transport: spec_fn(CallView) -> Step)
    requires
        serviceable(bridge),
        ends_calls_well(transport),
    ensures
        ({
            let after = next(bridge, fair_step(bridge, transport));
            &&& serviceable(after)
            &&& after.accepted == bridge.accepted
            &&& steps_left(bridge) > 0 ==> steps_left(after) < steps_left(bridge)
            &&& steps_left(bridge) == 0 ==> steps_left(after) == 0
        }),
{
    let step = fair_step(bridge, transport);
    let after = next(bridge, step);
    lemma_step_keeps_consistent(bridge, step);
    if enabled(bridge, step) {
        match step {
            Step::Take => {
                assert(headers_valid(bridge.requests[0].headers));
                assert forall|i: int| 0 <= i < after.requests.len() implies headers_valid(
                    (#[trigger] after.requests[i]).headers,
                ) by {
                    assert(after.requests[i] == bridge.requests[i + 1]);
                }
            },
            Step::Answer(reply) => {
                assert(transport(bridge.owed->PerformCall_0) == step);
            },
            _ => {},
        }
    }
}

/// From a state in which the worker is alive, the headers of every waiting
/// request parse, and every call ends, in failure or with a reply that is
/// text: if no one is kept waiting, after as many steps as are left to take
/// every request accepted so far has been delivered its response, and the
/// worker is still alive.
pub proof fn lemma_service_completes(bridge: Bridge, transport: spec_fn(CallView) -> Step)
    requires
        serviceable(bridge),
        ends_calls_well(transport),
    ensures
        ({
            let end = run(bridge, fair_steps(bridge, transport, steps_left(bridge)));
            &&& response_tokens(end.delivered) == bridge.accepted
            &&& end.accepted == bridge.accepted
            &&& end.requests.len() == 0
            &&& end.responses.len() == 0
            &&& !(end.worker is Crashed)
        }),
{
    let count = steps_left(bridge);
    lemma_fair_steps_progress(bridge, transport, count);
    let end = run(bridge, fair_steps(bridge, transport, count));
    assert(in_hand(end) =~= Seq::<Seq<char>>::empty());
    assert(request_tokens(end.requests) =~= Seq::<Seq<char>>::empty());
    assert(response_tokens(end.responses) =~= Seq::<Seq<char>>::empty());
    assert(end.accepted =~= response_tokens(end.delivered));
}

/// Liveness: let a bridge have come, by whatever steps, to a state in
/// which its worker is alive and the headers of every waiting request
/// parse, and let every call end, in failure or with a reply that is
/// text. Then, if from there on no one is kept waiting, every request
/// accepted so far is delivered exactly one response: after as many
/// steps as are left to take, the tokens of the responses delivered are
/// the tokens of the requests accepted, one for one and in the order of
/// submission.
pub proof fn lemma_every_request_is_answered(
    capacity: nat,
    steps: Seq<Step>,
    transport: spec_fn(CallView) -> Step,
)
    requires
        capacity > 0,
        !(run(init(capacity), steps).worker is Crashed),
        queue_parses(run(init(capacity), steps)),
        ends_calls_well(transport),
    ensures
        ({
            let bridge = run(init(capacity), steps);
            let end = run(bridge, fair_steps(bridge, transport, steps_left(bridge)));
            &&& response_tokens(end.delivered) == bridge.accepted
            &&& end.accepted == bridge.accepted
            &&& !(end.worker is Crashed)
        }),
{
    let bridge = run(init(capacity), steps);
    lemma_run_consistent(capacity, steps);
    lemma_run_keeps_capacity(init(capacity), steps);
    lemma_service_completes(bridge, transport);
}

/// No step changes the room in the mailboxes.
pub proof fn lemma_run_keeps_capacity(bridge: Bridge, steps: Seq<Step>)
    ensures
        run(bridge, steps).capacity == bridge.capacity,
    decreases steps.len(),
{
    if steps.len() > 0 {
        lemma_run_keeps_capacity(bridge, steps.drop_last());
    }
}

/// After `count` fair steps, `count` fewer steps are left to take.
proof fn lemma_fair_steps_progress(bridge: Bridge, transport: spec_fn(CallView) -> Step, count: nat)
    requires
        serviceable(bridge),
        ends_calls_well(transport),
    ensures
        ({
            let end = run(bridge, fair_steps(bridge, transport, count));
            &&& serviceable(end)
            &&& end.accepted == bridge.accepted
            &&& steps_left(end) + count <= steps_left(bridge) || steps_left(end) == 0
        }),
    decreases count,
{
    if count > 0 {
        let before = fair_steps(bridge, transport, (count - 1) as nat);
        lemma_fair_steps_progress(bridge, transport, (count - 1) as nat);
        let middle = run(bridge, before);
        let steps = fair_steps(bridge, transport, count);
        assert(steps.drop_last() =~= before);
        assert(steps.last() == fair_step(middle, transport));
        lemma_fair_step_makes_progress(middle, transport);
    }
}

} // verus!
