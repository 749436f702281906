use http_bridge::headers::Headers;
use http_bridge::http_client::{
    poll_outcome, HTTPClient, MailboxClosed, WorkerLink, MAILBOX_CAPACITY,
};
use http_bridge::mailbox::{RecvFailure, SendFailure};
use http_bridge::messages::{
    GETData, HTTPRequest, HTTPResponse, HTTPResponseData, Method, POSTData,
};
use http_bridge::transport::{OutboundCall, TransportReply};
use http_bridge::worker::{CrashReason, WorkerAction, WorkerEvent, WorkerState};

fn st(text: &str) -> String {
    text.to_string()
}

fn mapping(lines: &[(&str, &str)]) -> Headers {
    let mut headers = Headers::new();
    for (name, value) in lines {
        headers.insert(st(name), st(value));
    }
    headers
}

fn get_request(token: &str, url: &str, lines: &[(&str, &str)]) -> HTTPRequest {
    HTTPRequest::GET(
        GETData { req_id: st(token), url: st(url), not_req_id_headers: mapping(lines) },
    )
}

fn ok_reply(status: u16, lines: &[(&str, &str)], body: &str) -> TransportReply {
    TransportReply {
        status_code: status,
        header_lines: lines.iter().map(|(name, value)| (st(name), Some(st(value)))).collect(),
        body: body.as_bytes().to_vec(),
    }
}

/// What the worker's loop does when the worker tells it to halt.
fn halt(link: &WorkerLink) {
    link.requests.close();
    link.responses.close();
}

/// Runs the worker for one cycle on the link, as its loop would, with the
/// call ending as `outcome` says. Returns the state after the cycle and
/// the call that the worker asked for.
fn one_cycle(
    link: &WorkerLink,
    state: WorkerState,
    outcome: Option<TransportReply>,
) -> (WorkerState, Option<OutboundCall>) {
    let (state, action) = state.step(WorkerEvent::Scheduled);
    assert_eq!(action, WorkerAction::TakeRequest);
    let event = match link.requests.try_recv() {
        Ok(request) => WorkerEvent::RequestTaken(request),
        Err(async_channel::TryRecvError::Closed) => WorkerEvent::RequestMailboxClosed,
        Err(async_channel::TryRecvError::Empty) => panic!("no request is waiting"),
    };
    let (state, action) = state.step(event);
    let call = match action {
        WorkerAction::PerformCall(call) => call,
        WorkerAction::Halt(_) => {
            halt(link);
            return (state, None);
        },
        other => panic!("{:?}", other),
    };
    let event = match outcome {
        Some(reply) => WorkerEvent::CallCompleted(reply),
        None => WorkerEvent::CallFailed,
    };
    let (state, action) = state.step(event);
    let response = match action {
        WorkerAction::PutResponse(response) => response,
        WorkerAction::Halt(_) => {
            halt(link);
            return (state, Some(call));
        },
        other => panic!("{:?}", other),
    };
    let event = match link.responses.try_send(response) {
        Ok(()) => WorkerEvent::ResponseAccepted,
        Err(async_channel::TrySendError::Closed(_)) => WorkerEvent::ResponseMailboxClosed,
        Err(async_channel::TrySendError::Full(_)) => panic!("the response mailbox is full"),
    };
    let (state, action) = state.step(event);
    match action {
        WorkerAction::NextCycle => assert_eq!(state, WorkerState::Idle),
        WorkerAction::Halt(_) => halt(link),
        other => panic!("{:?}", other),
    }
    (state, Some(call))
}

#[test]
fn a_new_client_has_no_worker() {
    let client = HTTPClient::new();
    assert!(!client.is_started());
    assert_eq!(MAILBOX_CAPACITY, 42);
}

#[test]
fn start_records_the_worker() {
    let mut client = HTTPClient::new();
    let link = client.start();
    assert!(client.is_started());
    assert_eq!(link.requests.capacity(), Some(42));
    assert_eq!(link.responses.capacity(), Some(42));
}

#[test]
fn the_link_is_bound_to_the_clients_mailboxes() {
    let mut client = HTTPClient::new();
    let link = client.start();
    assert!(link.requests.is_empty());
    client.send_http_request(get_request("a", "http://h.test", &[])).unwrap();
    assert_eq!(link.requests.len(), 1);
    let taken = link.requests.try_recv().unwrap();
    assert_eq!(taken, get_request("a", "http://h.test", &[]));
    let response = HTTPResponse { request_id: st("a"), data: Err(()) };
    link.responses.try_send(response).unwrap();
    assert_eq!(
        client.get_received_http_response(),
        Ok(Some(HTTPResponse { request_id: st("a"), data: Err(()) })),
    );
}

#[test]
fn polling_with_nothing_pending_returns_nothing() {
    let mut client = HTTPClient::new();
    assert_eq!(client.get_received_http_response(), Ok(None));
    let _link = client.start();
    assert_eq!(client.get_received_http_response(), Ok(None));
    assert_eq!(client.get_received_http_response(), Ok(None));
}

#[test]
fn a_response_is_not_delivered_twice() {
    let mut client = HTTPClient::new();
    let link = client.start();
    client.send_http_request(get_request("once", "http://h.test", &[])).unwrap();
    let (state, _) = one_cycle(&link, WorkerState::new(), Some(ok_reply(200, &[], "ok")));
    assert_eq!(state, WorkerState::Idle);
    let first = client.get_received_http_response().unwrap();
    assert_eq!(first.map(|response| response.request_id), Some(st("once")));
    assert_eq!(client.get_received_http_response(), Ok(None));
    assert_eq!(client.get_received_http_response(), Ok(None));
}

#[test]
fn scenario_get_is_answered_with_the_reply() {
    let mut client = HTTPClient::new();
    let link = client.start();
    let sent = client.send_http_request(get_request("r1", "http://example.test/a", &[("X", "1")]));
    assert_eq!(sent, Ok(()));
    assert_eq!(client.get_received_http_response(), Ok(None));
    let remote = [("content-type", "text/plain"), ("content-length", "2")];
    let (state, call) = one_cycle(&link, WorkerState::new(), Some(ok_reply(200, &remote, "ok")));
    assert_eq!(state, WorkerState::Idle);
    let call = call.unwrap();
    assert_eq!(call.method, Method::Get);
    assert_eq!(call.url, "http://example.test/a");
    assert!(call.headers == mapping(&[("X", "1")]));
    assert_eq!(call.added_header, (st("request_id"), st("r1")));
    assert_eq!(call.body, None);
    let expected = HTTPResponse {
        request_id: st("r1"),
        data: Ok(
            HTTPResponseData { all_headers: mapping(&remote), status_code: 200, body: st("ok") },
        ),
    };
    assert_eq!(client.get_received_http_response(), Ok(Some(expected)));
    assert_eq!(client.get_received_http_response(), Ok(None));
}

#[test]
fn scenario_post_to_unreachable_host_yields_failure() {
    let mut client = HTTPClient::new();
    let link = client.start();
    let body: serde_json::Value = serde_json::from_str("{\"k\":1}").unwrap();
    let request = HTTPRequest::POST(
        POSTData {
            req_id: st("r2"),
            url: st("http://unreachable.test"),
            not_req_id_headers: Headers::new(),
            body: body.clone(),
        },
    );
    assert_eq!(client.send_http_request(request), Ok(()));
    let (state, call) = one_cycle(&link, WorkerState::new(), None);
    assert_eq!(state, WorkerState::Idle);
    let call = call.unwrap();
    assert_eq!(call.method, Method::Post);
    assert_eq!(call.url, "http://unreachable.test");
    assert_eq!(call.added_header, (st("request_id"), st("r2")));
    assert_eq!(call.body, Some(body));
    let polled = client.get_received_http_response().unwrap().unwrap();
    assert_eq!(polled.request_id, "r2");
    assert_eq!(polled.data, Err(()));
    assert_eq!(client.get_received_http_response(), Ok(None));
}

#[test]
fn scenario_submission_beyond_capacity_is_refused() {
    let mut client = HTTPClient::new();
    let _link = client.start();
    for i in 0..42 {
        let request = get_request(&format!("r{}", i), "http://h.test", &[]);
        assert_eq!(client.send_http_request(request), Ok(()), "submission {}", i);
    }
    let excess = get_request("r42", "http://h.test", &[("X", "1")]);
    let refused = client.send_http_request(excess);
    assert_eq!(refused, Err(SendFailure::Full(get_request("r42", "http://h.test", &[("X", "1")]))));
    let again = client.send_http_request(get_request("r43", "http://h.test", &[]));
    assert!(matches!(again, Err(SendFailure::Full(_))));
}

#[test]
fn room_returns_when_the_worker_takes_a_request() {
    let mut client = HTTPClient::new();
    let link = client.start();
    for i in 0..42 {
        client.send_http_request(get_request(&format!("r{}", i), "http://h.test", &[])).unwrap();
    }
    assert!(client.send_http_request(get_request("late", "http://h.test", &[])).is_err());
    let (state, _) = one_cycle(&link, WorkerState::new(), None);
    assert_eq!(state, WorkerState::Idle);
    assert_eq!(client.send_http_request(get_request("late", "http://h.test", &[])), Ok(()));
}

#[test]
fn each_request_gets_one_response_with_its_token() {
    let mut client = HTTPClient::new();
    let link = client.start();
    let tokens = ["a", "b", "c", "d", "e"];
    for token in tokens {
        client.send_http_request(get_request(token, "http://h.test", &[])).unwrap();
    }
    let mut state = WorkerState::new();
    for (i, _) in tokens.iter().enumerate() {
        let outcome = if i % 2 == 0 { Some(ok_reply(200, &[], "ok")) } else { None };
        let (next, _) = one_cycle(&link, state, outcome);
        state = next;
    }
    let mut seen = Vec::new();
    while let Some(response) = client.get_received_http_response().unwrap() {
        seen.push(response.request_id);
    }
    assert_eq!(seen, vec![st("a"), st("b"), st("c"), st("d"), st("e")]);
    assert_eq!(client.get_received_http_response(), Ok(None));
}

#[test]
fn responses_come_in_the_order_of_submission() {
    let mut client = HTTPClient::new();
    let link = client.start();
    client.send_http_request(get_request("A", "http://h.test/slow", &[])).unwrap();
    client.send_http_request(get_request("B", "http://h.test/fast", &[])).unwrap();
    let (state, first_call) = one_cycle(&link, WorkerState::new(), Some(ok_reply(200, &[], "a")));
    assert_eq!(first_call.unwrap().url, "http://h.test/slow");
    let first = client.get_received_http_response().unwrap().unwrap();
    assert_eq!(first.request_id, "A");
    assert_eq!(client.get_received_http_response(), Ok(None));
    let (_, second_call) = one_cycle(&link, state, Some(ok_reply(404, &[], "b")));
    assert_eq!(second_call.unwrap().url, "http://h.test/fast");
    let second = client.get_received_http_response().unwrap().unwrap();
    assert_eq!(second.request_id, "B");
    assert_eq!(second.data.unwrap().status_code, 404);
}

#[test]
fn a_request_with_malformed_headers_is_never_answered() {
    let mut client = HTTPClient::new();
    let link = client.start();
    client.send_http_request(get_request("bad", "http://h.test", &[("bad name", "1")])).unwrap();
    client.send_http_request(get_request("good", "http://h.test", &[])).unwrap();
    let (state, call) = one_cycle(&link, WorkerState::new(), None);
    assert_eq!(state, WorkerState::Crashed { reason: CrashReason::MalformedHeaders });
    assert_eq!(call, None);
    let (state, action) = state.step(WorkerEvent::Scheduled);
    assert_eq!(state, WorkerState::Crashed { reason: CrashReason::MalformedHeaders });
    assert_eq!(action, WorkerAction::Halt(CrashReason::MalformedHeaders));
    assert_eq!(client.get_received_http_response(), Err(MailboxClosed));
}

#[test]
fn a_crashed_worker_closes_the_bridge() {
    let mut client = HTTPClient::new();
    let link = client.start();
    client.send_http_request(get_request("bad", "http://h.test", &[("x", "a\nb")])).unwrap();
    let (state, _) = one_cycle(&link, WorkerState::new(), None);
    assert_eq!(state, WorkerState::Crashed { reason: CrashReason::MalformedHeaders });
    let refused = client.send_http_request(get_request("late", "http://h.test", &[]));
    assert_eq!(refused, Err(SendFailure::Closed(get_request("late", "http://h.test", &[]))));
    assert_eq!(client.get_received_http_response(), Err(MailboxClosed));
    assert_eq!(client.get_received_http_response(), Err(MailboxClosed));
}

#[test]
fn responses_made_before_the_crash_are_still_delivered() {
    let mut client = HTTPClient::new();
    let link = client.start();
    client.send_http_request(get_request("first", "http://h.test", &[])).unwrap();
    client.send_http_request(get_request("second", "http://h.test", &[])).unwrap();
    let (state, _) = one_cycle(&link, WorkerState::new(), Some(ok_reply(200, &[], "ok")));
    assert_eq!(state, WorkerState::Idle);
    let no_text =
        TransportReply { status_code: 200, header_lines: Vec::new(), body: vec![0xff, 0xfe] };
    let (state, _) = one_cycle(&link, state, Some(no_text));
    assert_eq!(state, WorkerState::Crashed { reason: CrashReason::UndecodableBody });
    let first = client.get_received_http_response().unwrap().unwrap();
    assert_eq!(first.request_id, "first");
    assert_eq!(client.get_received_http_response(), Err(MailboxClosed));
}

#[test]
fn a_client_that_was_never_started_takes_42_requests() {
    let mut client = HTTPClient::new();
    for i in 0..41 {
        client.send_http_request(get_request(&format!("r{}", i), "http://h.test", &[])).unwrap();
    }
    assert_eq!(client.send_http_request(get_request("r41", "http://h.test", &[])), Ok(()));
    let refused = client.send_http_request(get_request("r42", "http://h.test", &[]));
    assert_eq!(refused, Err(SendFailure::Full(get_request("r42", "http://h.test", &[]))));
    assert_eq!(client.get_received_http_response(), Ok(None));
    assert!(!client.is_started());
    let link = client.start();
    assert_eq!(link.requests.len(), 42);
    assert_eq!(link.requests.try_recv().unwrap(), get_request("r0", "http://h.test", &[]));
}

#[test]
fn polling_a_closed_mailbox_is_an_error() {
    let mut client = HTTPClient::new();
    let link = client.start();
    link.responses.try_send(HTTPResponse { request_id: st("last"), data: Err(()) }).unwrap();
    assert!(link.responses.close());
    let last = client.get_received_http_response();
    assert_eq!(last, Ok(Some(HTTPResponse { request_id: st("last"), data: Err(()) })));
    assert_eq!(client.get_received_http_response(), Err(MailboxClosed));
    assert_eq!(client.get_received_http_response(), Err(MailboxClosed));
}

#[test]
fn submitting_to_a_closed_mailbox_hands_the_request_back() {
    let mut client = HTTPClient::new();
    let link = client.start();
    assert!(link.requests.close());
    let refused = client.send_http_request(get_request("r", "http://h.test", &[("X", "1")]));
    assert_eq!(refused, Err(SendFailure::Closed(get_request("r", "http://h.test", &[("X", "1")]))));
}

#[test]
fn the_worker_stops_over_a_closed_request_mailbox() {
    let mut client = HTTPClient::new();
    let link = client.start();
    assert!(link.requests.close());
    let (state, call) = one_cycle(&link, WorkerState::new(), None);
    assert_eq!(state, WorkerState::Crashed { reason: CrashReason::RequestMailboxClosed });
    assert_eq!(call, None);
}

#[test]
fn the_worker_stops_over_a_closed_response_mailbox() {
    let mut client = HTTPClient::new();
    let link = client.start();
    client.send_http_request(get_request("r", "http://h.test", &[])).unwrap();
    assert!(link.responses.close());
    let (state, _) = one_cycle(&link, WorkerState::new(), None);
    assert_eq!(state, WorkerState::Crashed { reason: CrashReason::ResponseMailboxClosed });
}

#[test]
fn poll_outcome_of_each_kind() {
    assert_eq!(poll_outcome(Ok(7u8)), Ok(Some(7u8)));
    assert_eq!(poll_outcome::<u8>(Err(RecvFailure::Empty)), Ok(None));
    assert_eq!(poll_outcome::<u8>(Err(RecvFailure::Closed)), Err(MailboxClosed));
}

#[test]
fn a_second_start_hands_out_the_same_mailboxes() {
    let mut client = HTTPClient::new();
    let first = client.start();
    let second = client.start();
    assert!(client.is_started());
    assert!(first.requests.same_channel(&second.requests));
    assert!(first.responses.same_channel(&second.responses));
    client.send_http_request(get_request("a", "http://h.test", &[])).unwrap();
    client.send_http_request(get_request("b", "http://h.test", &[])).unwrap();
    let (_, second_call) = one_cycle(&second, WorkerState::new(), None);
    let (_, first_call) = one_cycle(&first, WorkerState::new(), None);
    assert_eq!(second_call.unwrap().added_header.1, "a");
    assert_eq!(first_call.unwrap().added_header.1, "b");
}
