//! The bridge's facade: what the caller holds.

use crate::mailbox::{
    hands_back, mailbox_offer, offer_view, RecvFailure, RequestMailbox, ResponseMailbox,
    SendFailure,
};
use crate::messages::{HTTPRequest, HTTPResponse, RequestView, ResponseView};
use crate::protocol::{init, next, poll_returns, request_tokens, submit_returns, Bridge, Step};
use crate::worker::{WorkerActionView, WorkerStateView};
use async_channel::{Receiver, Sender};
use vstd::prelude::*;

verus! {

/// The number of messages that each of the two mailboxes has room for.
pub const MAILBOX_CAPACITY: usize = 42;

/// The response mailbox is closed for good: no worker will ever put a
/// response into it again.
#[derive(Clone, Copy, Debug, PartialEq, Eq, Structural)]
pub struct MailboxClosed;

/// What a poll hands to the caller, given what came out of the mailbox:
/// the message where there was one, nothing where the mailbox was empty,
/// and the error where the mailbox is closed.
pub open spec fn poll_result<T>(taken: Result<T, RecvFailure>) -> Result<Option<T>, MailboxClosed> {
    match taken {
        Ok(message) => Ok(Some(message)),
        Err(RecvFailure::Empty) => Ok(None),
        Err(RecvFailure::Closed) => Err(MailboxClosed),
    }
}

/// The view of what a poll handed to the caller.
pub open spec fn poll_view(polled: Result<Option<HTTPResponse>, MailboxClosed>) -> Result<
    Option<ResponseView>,
    MailboxClosed,
> {
    match polled {
        Ok(Some(response)) => Ok(Some(response@)),
        Ok(None) => Ok(None),
        Err(closed) => Err(closed),
    }
}

/// Turns what came out of a mailbox into what a poll hands to the caller.
pub fn poll_outcome<T>(taken: Result<T, RecvFailure>) -> (polled: Result<Option<T>, MailboxClosed>)
    ensures
        polled == poll_result(taken),
{
    match taken {
        Ok(message) => Ok(Some(message)),
        Err(RecvFailure::Empty) => Ok(None),
        Err(RecvFailure::Closed) => Err(MailboxClosed),
    }
}

/// The worker's ends of the two mailboxes.
pub struct WorkerLink {
    /// Where the worker takes requests from.
    pub requests: Receiver<HTTPRequest>,
    /// Where the worker puts responses.
    pub responses: Sender<HTTPResponse>,
}

/// The bridge as the caller sees it: the two mailboxes.
pub struct HTTPClient {
    requests: RequestMailbox,
    responses: ResponseMailbox,
}

impl HTTPClient {
    /// The room that the request mailbox was made with.
    pub closed spec fn request_capacity(&self) -> nat {
        self.requests.room()
    }

    /// The room that the response mailbox was made with.
    pub closed spec fn response_capacity(&self) -> nat {
        self.responses.room()
    }

    /// Whether ends of the mailboxes have been handed out for a worker.
    pub closed spec fn started(&self) -> bool {
        self.requests.lent() || self.responses.lent()
    }

    /// The requests that the request mailbox has taken from this client,
    /// in the order of their submission. Until a worker is started, these
    /// are the requests that wait in the mailbox.
    pub closed spec fn accepted(&self) -> Seq<RequestView> {
        self.requests.accepted()
    }

    /// The responses that the response mailbox has given out to this
    /// client, in the order of their delivery.
    pub closed spec fn delivered(&self) -> Seq<ResponseView> {
        self.responses.delivered()
    }

    /// Whether the link's two ends are ends of this client's own two
    /// mailboxes.
    pub closed spec fn serves(&self, link: WorkerLink) -> bool {
        self.requests.serves(link.requests) && self.responses.serves(link.responses)
    }

    /// The state of the bridge, as the transition system of
    /// [`protocol`](crate::protocol) has it, for a client on which no
    /// worker was started: all that was accepted waits in the request
    /// mailbox, the response mailbox is empty, and the worker has not
    /// begun.
    pub open spec fn before_start(&self) -> Bridge {
        Bridge {
            capacity: self.request_capacity(),
            requests: self.accepted(),
            worker: WorkerStateView::Idle,
            owed: WorkerActionView::NextCycle,
            responses: Seq::empty(),
            closed: false,
            accepted: request_tokens(self.accepted()),
            delivered: self.delivered(),
        }
    }

    /// Makes the two mailboxes, each with room for `MAILBOX_CAPACITY`
    /// messages and empty: nothing has been accepted or delivered. No
    /// worker is running yet.
    pub fn new() -> (client: HTTPClient)
        ensures
            client.request_capacity() == MAILBOX_CAPACITY,
            client.response_capacity() == MAILBOX_CAPACITY,
            client.accepted() == Seq::<RequestView>::empty(),
            client.delivered() == Seq::<ResponseView>::empty(),
            !client.started(),
            client.before_start() == init(MAILBOX_CAPACITY as nat),
    {
        let responses = ResponseMailbox::open(MAILBOX_CAPACITY);
        let requests = RequestMailbox::open(MAILBOX_CAPACITY);
        let client = HTTPClient { requests, responses };
        proof {
            assert(request_tokens(client.accepted()) =~= Seq::<Seq<char>>::empty());
        }
        client
    }

    /// Whether ends of the mailboxes have been handed out for a worker.
    pub fn is_started(&self) -> (started: bool)
        ensures
            started == self.started(),
    {
        self.requests.is_lent() || self.responses.is_lent()
    }

    /// Hands out the worker's ends of the client's own two mailboxes, for
    /// one worker to be run on them. Nothing is put into a mailbox or
    /// taken out of it. The bridge is meant to have one worker: it is for
    /// the caller to call this once. A further call hands out further
    /// ends of the same two mailboxes.
    pub fn start(&mut self) -> (link: WorkerLink)
        ensures
            final(self).started(),
            final(self).serves(link),
            forall|earlier: WorkerLink| old(self).serves(earlier) ==> final(self).serves(earlier),
            final(self).request_capacity() == old(self).request_capacity(),
            final(self).response_capacity() == old(self).response_capacity(),
            final(self).accepted() == old(self).accepted(),
            final(self).delivered() == old(self).delivered(),
    {
        let requests = self.requests.lend();
        let responses = self.responses.lend();
        WorkerLink { requests, responses }
    }

    /// Offers a request to the request mailbox, once, and returns at once.
    /// Where the mailbox takes it, the request is the latest of those
    /// accepted. A request that the mailbox does not take comes back in
    /// the error, and nothing was accepted: `Full` where the caller has
    /// run ahead of the worker by more than the mailbox holds, `Closed`
    /// where the mailbox is closed for good.
    ///
    /// Until a worker is started, every accepted request waits in the
    /// mailbox, and the request is taken exactly while fewer wait than the
    /// mailbox has room for: the call is the step `Submit` of the
    /// transition system. After that, which of the three it is depends on
    /// how far the worker has come.
    pub fn send_http_request(&mut self, msg: HTTPRequest) -> (sent: Result<
        (),
        SendFailure<HTTPRequest>,
    >)
        ensures
            hands_back(sent, msg),
            sent is Ok ==> final(self).accepted() == old(self).accepted().push(msg@),
            sent is Err ==> final(self).accepted() == old(self).accepted(),
            !old(self).started() ==> (final(self).accepted(), offer_view(sent)) == mailbox_offer(
                old(self).accepted(),
                old(self).request_capacity(),
                false,
                msg@,
            ),
            !old(self).started() ==> offer_view(sent) == submit_returns(
                old(self).before_start(),
                msg@,
            ),
            !old(self).started() ==> final(self).before_start() == next(
                old(self).before_start(),
                Step::Submit(msg@),
            ),
            final(self).delivered() == old(self).delivered(),
            final(self).started() == old(self).started(),
            final(self).request_capacity() == old(self).request_capacity(),
            final(self).response_capacity() == old(self).response_capacity(),
            forall|link: WorkerLink| final(self).serves(link) == old(self).serves(link),
    {
        let ghost tokens = request_tokens(self.accepted());
        let ghost token = msg@.req_id;
        let sent = self.requests.offer(msg);
        proof {
            if sent is Ok {
                assert(request_tokens(self.accepted()) =~= tokens.push(token));
            }
        }
        sent
    }

    /// Looks into the response mailbox, once, and returns at once: the
    /// response that came out of it, which is then the latest of those
    /// delivered; `None` where the mailbox had none to give; the error
    /// where it had none and is closed for good. In the last two cases
    /// nothing was delivered.
    ///
    /// Until a worker is started the result is `None`: the call is the
    /// step `Poll` of the transition system on an empty mailbox. After
    /// that, which of the three it is depends on how far the worker has
    /// come.
    pub fn get_received_http_response(&mut self) -> (polled: Result<
        Option<HTTPResponse>,
        MailboxClosed,
    >)
        ensures
            polled matches Ok(Some(response)) ==> final(self).delivered()
                == old(self).delivered().push(response@),
            !(polled matches Ok(Some(_))) ==> final(self).delivered() == old(self).delivered(),
            !old(self).started() ==> polled matches Ok(None),
            !old(self).started() ==> poll_view(polled) == poll_returns(old(self).before_start()),
            !old(self).started() ==> final(self).before_start() == next(
                old(self).before_start(),
                Step::Poll,
            ),
            final(self).accepted() == old(self).accepted(),
            final(self).started() == old(self).started(),
            final(self).request_capacity() == old(self).request_capacity(),
            final(self).response_capacity() == old(self).response_capacity(),
            forall|link: WorkerLink| final(self).serves(link) == old(self).serves(link),
    {
        poll_outcome(self.responses.take())
    }
}

} // verus!
