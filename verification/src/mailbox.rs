//! The bounded mailboxes between caller and worker.
//!
//! A mailbox is a bounded channel of the `async_channel` crate, held here
//! with both of its ends. While a mailbox has lent no end, nobody else can
//! reach its channel, and what its operations return follows from what it
//! has taken and given so far. Once an end is lent, other threads put and
//! take in between, and what waits in the channel at a given moment is no
//! longer a function of anything in hand: then only that is stated which
//! holds whatever the others did.
//!
//! The fields of the two mailbox types are private to this file. The file
//! clones an end in `lend` alone, never receives on the request channel,
//! never sends on the response channel, and never closes a channel.

use crate::messages::{HTTPRequest, HTTPResponse, RequestView, ResponseView};
use async_channel::{Receiver, Sender};
use vstd::prelude::*;

verus! {

/// The sending end of a channel, `async_channel::Sender`. Nothing is known
/// of what is inside.
#[verifier::external_type_specification]
#[verifier::external_body]
#[verifier::reject_recursive_types(T)]
pub struct ExSender<T>(Sender<T>);

/// The receiving end of a channel, `async_channel::Receiver`. Nothing is
/// known of what is inside.
#[verifier::external_type_specification]
#[verifier::external_body]
#[verifier::reject_recursive_types(T)]
pub struct ExReceiver<T>(Receiver<T>);

/// Why a message was not accepted by a mailbox. The message comes back.
#[derive(Debug, PartialEq)]
pub enum SendFailure<T> {
    /// The mailbox holds as many messages as it has room for.
    Full(T),
    /// The mailbox is closed for good.
    Closed(T),
}

/// Why no message came out of a mailbox.
#[derive(Debug, PartialEq)]
pub enum RecvFailure {
    /// Nothing is queued at the moment.
    Empty,
    /// Nothing is queued, and the mailbox is closed for good.
    Closed,
}

/// What an offer of `message` to a mailbox can come back with: that the
/// mailbox took the message, or one of the two refusals with the message
/// as it was offered.
pub open spec fn hands_back<T>(sent: Result<(), SendFailure<T>>, message: T) -> bool {
    match sent {
        Ok(()) => true,
        Err(SendFailure::Full(refused)) => refused == message,
        Err(SendFailure::Closed(refused)) => refused == message,
    }
}

/// A mailbox that is offered a message, with nobody else at work on it. A
/// closed mailbox hands the message back; an open one takes it at its end
/// while it has room, and hands it back when it is full.
pub open spec fn mailbox_offer<T>(queue: Seq<T>, capacity: nat, closed: bool, message: T) -> (
    Seq<T>,
    Result<(), SendFailure<T>>,
) {
    if closed {
        (queue, Err(SendFailure::Closed(message)))
    } else if queue.len() < capacity {
        (queue.push(message), Ok(()))
    } else {
        (queue, Err(SendFailure::Full(message)))
    }
}

/// A mailbox that is asked for a message, with nobody else at work on it.
/// It gives out the oldest message that waits, closed or not; with none
/// waiting it reports that it is empty, or that it is closed.
pub open spec fn mailbox_take<T>(queue: Seq<T>, closed: bool) -> (Seq<T>, Result<T, RecvFailure>) {
    if queue.len() > 0 {
        (queue.drop_first(), Ok(queue.first()))
    } else if closed {
        (queue, Err(RecvFailure::Closed))
    } else {
        (queue, Err(RecvFailure::Empty))
    }
}

/// What `async_channel::Receiver::capacity` returns for this end of a
/// bounded request channel: the room that the channel was made with.
pub uninterp spec fn request_room(receiver: Receiver<HTTPRequest>) -> nat;

/// What `async_channel::Sender::capacity` returns for this end of a
/// bounded response channel: the room that the channel was made with.
pub uninterp spec fn response_room(sender: Sender<HTTPResponse>) -> nat;

/// What `async_channel::Receiver::same_channel` returns for two receiving
/// ends: whether they are ends of one channel.
pub uninterp spec fn same_request_channel(one: Receiver<HTTPRequest>, other: Receiver<HTTPRequest>) -> bool;

/// What `async_channel::Sender::same_channel` returns for two sending
/// ends: whether they are ends of one channel.
pub uninterp spec fn same_response_channel(one: Sender<HTTPResponse>, other: Sender<HTTPResponse>) -> bool;

/// The requests that the channel has taken through this sending end, from
/// the first to the latest: one for each call of
/// `async_channel::Sender::try_send` on this end that returned `Ok`.
pub uninterp spec fn taken_in(sender: Sender<HTTPRequest>) -> Seq<RequestView>;

/// The responses that the channel has given out through this receiving
/// end, from the first to the latest: one for each call of
/// `async_channel::Receiver::try_recv` on this end that returned `Ok`.
pub uninterp spec fn given_out(receiver: Receiver<HTTPResponse>) -> Seq<ResponseView>;

/// The request mailbox as the caller holds it: the end through which the
/// caller sends, and the end of which the workers get their copies.
pub struct RequestMailbox {
    sender: Sender<HTTPRequest>,
    receiver: Receiver<HTTPRequest>,
    lent: bool,
}

/// The response mailbox as the caller holds it: the end through which the
/// caller receives, and the end of which the workers get their copies.
pub struct ResponseMailbox {
    sender: Sender<HTTPResponse>,
    receiver: Receiver<HTTPResponse>,
    lent: bool,
}

/// `async_channel::bounded`, for requests: makes a channel with room for
/// `capacity` messages and returns its two ends. The function panics on a
/// capacity of zero, which the precondition leaves out. Claimed is that
/// the channel has the room asked for, and that it has taken nothing yet
/// through its sending end.
#[verifier::external_body]
fn request_channel(capacity: usize) -> (ends: (Sender<HTTPRequest>, Receiver<HTTPRequest>))
    requires
        capacity > 0,
    ensures
        request_room(ends.1) == capacity,
        taken_in(ends.0) == Seq::<RequestView>::empty(),
{
    async_channel::bounded(capacity)
}

/// `async_channel::bounded`, for responses: makes a channel with room for
/// `capacity` messages and returns its two ends. The function panics on a
/// capacity of zero, which the precondition leaves out. Claimed is that
/// the channel has the room asked for, and that it has given out nothing
/// yet through its receiving end.
#[verifier::external_body]
fn response_channel(capacity: usize) -> (ends: (Sender<HTTPResponse>, Receiver<HTTPResponse>))
    requires
        capacity > 0,
    ensures
        response_room(ends.0) == capacity,
        given_out(ends.1) == Seq::<ResponseView>::empty(),
{
    async_channel::bounded(capacity)
}

/// `Clone` of `async_channel::Receiver`: another handle to the same
/// channel, which therefore has the same room. (The crate ends the
/// process once more than half of `usize::MAX` handles are alive, which
/// no program comes to.)
#[verifier::external_body]
fn another_request_end(receiver: &Receiver<HTTPRequest>) -> (other: Receiver<HTTPRequest>)
    ensures
        same_request_channel(*receiver, other),
        request_room(other) == request_room(*receiver),
{
    receiver.clone()
}

/// `Clone` of `async_channel::Sender`: another handle to the same
/// channel, which therefore has the same room. (The crate ends the
/// process once more than half of `usize::MAX` handles are alive, which
/// no program comes to.)
#[verifier::external_body]
fn another_response_end(sender: &Sender<HTTPResponse>) -> (other: Sender<HTTPResponse>)
    ensures
        same_response_channel(*sender, other),
        response_room(other) == response_room(*sender),
{
    sender.clone()
}

/// `async_channel::Sender::try_send` on the mailbox's sending end: offers
/// `message` to the channel without waiting. Claimed of every call: a
/// refused message is handed back as it was given; the channel has taken
/// through this end one message more, this one, exactly when the call
/// returned `Ok`; the mailbox's other end and its mark are as they were.
/// Claimed of a mailbox that has lent no end: nobody has taken a message
/// out or closed the channel, so all that it has taken still waits, and
/// the call returns `Ok` exactly when that is less than the room, and
/// `Full` else.
#[verifier::external_body]
fn try_send(mailbox: &mut RequestMailbox, message: HTTPRequest) -> (sent: Result<(), SendFailure<HTTPRequest>>)
    ensures
        hands_back(sent, message),
        sent is Ok ==> taken_in(final(mailbox).sender) == taken_in(old(mailbox).sender).push(message@),
        sent is Err ==> taken_in(final(mailbox).sender) == taken_in(old(mailbox).sender),
        !old(mailbox).lent && taken_in(old(mailbox).sender).len() < request_room(old(mailbox).receiver) ==> sent is Ok,
        !old(mailbox).lent && taken_in(old(mailbox).sender).len() >= request_room(old(mailbox).receiver) ==> sent matches Err(SendFailure::Full(_)),
        final(mailbox).receiver == old(mailbox).receiver,
        final(mailbox).lent == old(mailbox).lent,
{
    match mailbox.sender.try_send(message) {
        Ok(()) => Ok(()),
        Err(async_channel::TrySendError::Full(m)) => Err(SendFailure::Full(m)),
        Err(async_channel::TrySendError::Closed(m)) => Err(SendFailure::Closed(m)),
    }
}

/// `async_channel::Receiver::try_recv` on the mailbox's receiving end:
/// takes the next message out of the channel without waiting. Claimed of
/// every call: the channel has given out through this end one message
/// more, the one returned, exactly when the call returned `Ok`; the
/// mailbox's other end and its mark are as they were. Claimed of a mailbox
/// that has lent no end: nobody has put a message in or closed the
/// channel, so the call returns `Empty`.
#[verifier::external_body]
fn try_recv(mailbox: &mut ResponseMailbox) -> (taken: Result<HTTPResponse, RecvFailure>)
    ensures
        taken matches Ok(message) ==> given_out(final(mailbox).receiver) == given_out(old(mailbox).receiver).push(message@),
        taken is Err ==> given_out(final(mailbox).receiver) == given_out(old(mailbox).receiver),
        !old(mailbox).lent ==> taken matches Err(RecvFailure::Empty),
        final(mailbox).sender == old(mailbox).sender,
        final(mailbox).lent == old(mailbox).lent,
{
    match mailbox.receiver.try_recv() {
        Ok(message) => Ok(message),
        Err(async_channel::TryRecvError::Empty) => Err(RecvFailure::Empty),
        Err(async_channel::TryRecvError::Closed) => Err(RecvFailure::Closed),
    }
}

/// The view of what an offer of a request came back with.
pub open spec fn offer_view(sent: Result<(), SendFailure<HTTPRequest>>) -> Result<
    (),
    SendFailure<RequestView>,
> {
    match sent {
        Ok(()) => Ok(()),
        Err(SendFailure::Full(refused)) => Err(SendFailure::Full(refused@)),
        Err(SendFailure::Closed(refused)) => Err(SendFailure::Closed(refused@)),
    }
}

/// The view of what came out of the response mailbox.
pub open spec fn take_view(taken: Result<HTTPResponse, RecvFailure>) -> Result<
    ResponseView,
    RecvFailure,
> {
    match taken {
        Ok(message) => Ok(message@),
        Err(failure) => Err(failure),
    }
}

impl RequestMailbox {
    /// The room that the mailbox was made with.
    pub closed spec fn room(&self) -> nat {
        request_room(self.receiver)
    }

    /// The requests that the mailbox has taken from the caller, in the
    /// order in which it took them.
    pub closed spec fn accepted(&self) -> Seq<RequestView> {
        taken_in(self.sender)
    }

    /// Whether the mailbox has lent an end.
    pub closed spec fn lent(&self) -> bool {
        self.lent
    }

    /// Whether `end` is an end of this mailbox's channel.
    pub closed spec fn serves(&self, end: Receiver<HTTPRequest>) -> bool {
        same_request_channel(self.receiver, end)
    }

    /// Makes a mailbox with room for `capacity` requests. It has taken
    /// nothing and lent no end.
    pub fn open(capacity: usize) -> (mailbox: RequestMailbox)
        requires
            capacity > 0,
        ensures
            mailbox.room() == capacity,
            mailbox.accepted() == Seq::<RequestView>::empty(),
            !mailbox.lent(),
    {
        let (sender, receiver) = request_channel(capacity);
        RequestMailbox { sender, receiver, lent: false }
    }

    /// Whether the mailbox has lent an end.
    pub fn is_lent(&self) -> (lent: bool)
        ensures
            lent == self.lent(),
    {
        self.lent
    }

    /// Hands out a receiving end of the mailbox's channel, and marks the
    /// mailbox as one that has lent an end.
    pub fn lend(&mut self) -> (end: Receiver<HTTPRequest>)
        ensures
            final(self).lent(),
            final(self).serves(end),
            final(self).room() == old(self).room(),
            final(self).accepted() == old(self).accepted(),
            forall|other: Receiver<HTTPRequest>|
                final(self).serves(other) == old(self).serves(other),
    {
        let end = another_request_end(&self.receiver);
        self.lent = true;
        end
    }

    /// Offers a request to the mailbox, once, without waiting. While the
    /// mailbox has lent no end, what waits in it is all that it has
    /// accepted, and the offer ends as [`mailbox_offer`] says. Once it has
    /// lent an end, the offer ends as the worker's progress decides.
    pub fn offer(&mut self, message: HTTPRequest) -> (sent: Result<(), SendFailure<HTTPRequest>>)
        ensures
            hands_back(sent, message),
            sent is Ok ==> final(self).accepted() == old(self).accepted().push(message@),
            sent is Err ==> final(self).accepted() == old(self).accepted(),
            !old(self).lent() ==> (final(self).accepted(), offer_view(sent)) == mailbox_offer(
                old(self).accepted(),
                old(self).room(),
                false,
                message@,
            ),
            final(self).lent() == old(self).lent(),
            final(self).room() == old(self).room(),
            forall|end: Receiver<HTTPRequest>| final(self).serves(end) == old(self).serves(end),
    {
        try_send(self, message)
    }
}

impl ResponseMailbox {
    /// The room that the mailbox was made with.
    pub closed spec fn room(&self) -> nat {
        response_room(self.sender)
    }

    /// The responses that the mailbox has given out to the caller, in the
    /// order in which it gave them.
    pub closed spec fn delivered(&self) -> Seq<ResponseView> {
        given_out(self.receiver)
    }

    /// Whether the mailbox has lent an end.
    pub closed spec fn lent(&self) -> bool {
        self.lent
    }

    /// Whether `end` is an end of this mailbox's channel.
    pub closed spec fn serves(&self, end: Sender<HTTPResponse>) -> bool {
        same_response_channel(self.sender, end)
    }

    /// Makes a mailbox with room for `capacity` responses. It has given
    /// out nothing and lent no end.
    pub fn open(capacity: usize) -> (mailbox: ResponseMailbox)
        requires
            capacity > 0,
        ensures
            mailbox.room() == capacity,
            mailbox.delivered() == Seq::<ResponseView>::empty(),
            !mailbox.lent(),
    {
        let (sender, receiver) = response_channel(capacity);
        ResponseMailbox { sender, receiver, lent: false }
    }

    /// Whether the mailbox has lent an end.
    pub fn is_lent(&self) -> (lent: bool)
        ensures
            lent == self.lent(),
    {
        self.lent
    }

    /// Hands out a sending end of the mailbox's channel, and marks the
    /// mailbox as one that has lent an end.
    pub fn lend(&mut self) -> (end: Sender<HTTPResponse>)
        ensures
            final(self).lent(),
            final(self).serves(end),
            final(self).room() == old(self).room(),
            final(self).delivered() == old(self).delivered(),
            forall|other: Sender<HTTPResponse>|
                final(self).serves(other) == old(self).serves(other),
    {
        let end = another_response_end(&self.sender);
        self.lent = true;
        end
    }

    /// Asks the mailbox for a response, once, without waiting. While the
    /// mailbox has lent no end, nothing can wait in it, and the answer is
    /// what [`mailbox_take`] says of an empty mailbox. Once it has lent an
    /// end, the answer is as the worker's progress decides.
    pub fn take(&mut self) -> (taken: Result<HTTPResponse, RecvFailure>)
        ensures
            taken matches Ok(message) ==> final(self).delivered() == old(self).delivered().push(
                message@,
            ),
            taken is Err ==> final(self).delivered() == old(self).delivered(),
            !old(self).lent() ==> take_view(taken) == mailbox_take(
                Seq::<ResponseView>::empty(),
                false,
            ).1,
            final(self).lent() == old(self).lent(),
            final(self).room() == old(self).room(),
            forall|end: Sender<HTTPResponse>| final(self).serves(end) == old(self).serves(end),
    {
        try_recv(self)
    }
}

} // verus!
