use http_bridge::headers::Headers;
use http_bridge::messages::{
    GETData, HTTPRequest, HTTPResponse, HTTPResponseData, Method, POSTData,
};
use http_bridge::transport::{outbound_call, TransportReply};
use http_bridge::worker::{
    answered_call_response, failed_call_response, CrashReason, WorkerAction, WorkerEvent,
    WorkerState,
};

fn s(text: &str) -> String {
    text.to_string()
}

fn headers_of(lines: &[(&str, &str)]) -> Headers {
    let mut headers = Headers::new();
    for (name, value) in lines {
        headers.insert(s(name), s(value));
    }
    headers
}

fn get(token: &str, url: &str, lines: &[(&str, &str)]) -> HTTPRequest {
    HTTPRequest::GET(
        GETData { req_id: s(token), url: s(url), not_req_id_headers: headers_of(lines) },
    )
}

fn reply(status: u16, lines: &[(&str, &str)], body: &str) -> TransportReply {
    TransportReply {
        status_code: status,
        header_lines: lines.iter().map(|(name, value)| (s(name), Some(s(value)))).collect(),
        body: body.as_bytes().to_vec(),
    }
}

fn in_flight(token: &str) -> WorkerState {
    WorkerState::InFlight { req_id: s(token) }
}

#[test]
fn a_new_worker_is_idle() {
    assert_eq!(WorkerState::new(), WorkerState::Idle);
    assert!(!WorkerState::new().is_crashed());
}

#[test]
fn a_cycle_begins_with_waiting_for_a_request() {
    let (state, action) = WorkerState::new().step(WorkerEvent::Scheduled);
    assert_eq!(state, WorkerState::Dequeuing);
    assert_eq!(action, WorkerAction::TakeRequest);
}

#[test]
fn a_retrieval_becomes_a_get_call_with_the_token_added() {
    let request = get("r1", "http://example.test/a", &[("X", "1")]);
    let (state, action) = WorkerState::Dequeuing.step(WorkerEvent::RequestTaken(request));
    assert_eq!(state, in_flight("r1"));
    match action {
        WorkerAction::PerformCall(call) => {
            assert_eq!(call.method, Method::Get);
            assert_eq!(call.url, "http://example.test/a");
            assert!(call.headers == headers_of(&[("X", "1")]));
            assert_eq!(call.added_header, (s("request_id"), s("r1")));
            assert_eq!(call.body, None);
        },
        other => panic!("{:?}", other),
    }
}

#[test]
fn a_submission_becomes_a_post_call_with_its_body() {
    let body: serde_json::Value = serde_json::from_str("{\"k\":1}").unwrap();
    let request = HTTPRequest::POST(
        POSTData {
            req_id: s("r2"),
            url: s("http://unreachable.test"),
            not_req_id_headers: Headers::new(),
            body: body.clone(),
        },
    );
    let (state, action) = WorkerState::Dequeuing.step(WorkerEvent::RequestTaken(request));
    assert_eq!(state, in_flight("r2"));
    match action {
        WorkerAction::PerformCall(call) => {
            assert_eq!(call.method, Method::Post);
            assert_eq!(call.url, "http://unreachable.test");
            assert_eq!(call.headers.len(), 0);
            assert_eq!(call.added_header, (s("request_id"), s("r2")));
            assert_eq!(call.body, Some(body));
        },
        other => panic!("{:?}", other),
    }
}

#[test]
fn outbound_call_keeps_a_header_named_like_the_added_one() {
    let call = outbound_call(get("t", "u", &[("request_id", "mine")]));
    assert_eq!(call.headers.get(&s("request_id")), Some(&s("mine")));
    assert_eq!(call.added_header, (s("request_id"), s("t")));
}

#[test]
fn malformed_headers_crash_the_worker() {
    let request = get("r1", "http://example.test/a", &[("bad name", "1")]);
    let (state, action) = WorkerState::Dequeuing.step(WorkerEvent::RequestTaken(request));
    assert_eq!(state, WorkerState::Crashed { reason: CrashReason::MalformedHeaders });
    assert_eq!(action, WorkerAction::Halt(CrashReason::MalformedHeaders));
    assert!(state.is_crashed());
}

#[test]
fn a_malformed_header_value_crashes_the_worker() {
    let request = get("r1", "http://example.test/a", &[("x", "line\nbreak")]);
    let (state, action) = WorkerState::Dequeuing.step(WorkerEvent::RequestTaken(request));
    assert_eq!(state, WorkerState::Crashed { reason: CrashReason::MalformedHeaders });
    assert_eq!(action, WorkerAction::Halt(CrashReason::MalformedHeaders));
}

#[test]
fn a_closed_request_mailbox_crashes_the_worker() {
    let (state, action) = WorkerState::Dequeuing.step(WorkerEvent::RequestMailboxClosed);
    assert_eq!(state, WorkerState::Crashed { reason: CrashReason::RequestMailboxClosed });
    assert_eq!(action, WorkerAction::Halt(CrashReason::RequestMailboxClosed));
}

#[test]
fn an_answered_call_becomes_a_response_with_the_token() {
    let answer = reply(200, &[("content-type", "text/plain"), ("x-served-by", "a")], "ok");
    let (state, action) = in_flight("r1").step(WorkerEvent::CallCompleted(answer));
    assert_eq!(state, WorkerState::Completing);
    let expected = HTTPResponse {
        request_id: s("r1"),
        data: Ok(
            HTTPResponseData {
                all_headers: headers_of(&[("x-served-by", "a"), ("content-type", "text/plain")]),
                status_code: 200,
                body: s("ok"),
            },
        ),
    };
    assert_eq!(action, WorkerAction::PutResponse(expected));
}

#[test]
fn a_status_outside_the_200s_is_passed_on() {
    for status in [100u16, 204, 301, 404, 500, 599] {
        let built = answered_call_response(s("t"), reply(status, &[], "")).unwrap();
        assert_eq!(built.request_id, "t");
        let data = built.data.unwrap();
        assert_eq!(data.status_code, status);
        assert_eq!(data.body, "");
        assert_eq!(data.all_headers.len(), 0);
    }
}

#[test]
fn of_two_reply_lines_with_one_name_the_later_stays() {
    let answer = reply(200, &[("set-cookie", "a=1"), ("etag", "x"), ("set-cookie", "b=2")], "");
    let built = answered_call_response(s("t"), answer).unwrap();
    let data = built.data.unwrap();
    assert_eq!(data.all_headers.len(), 2);
    assert_eq!(data.all_headers.get(&s("set-cookie")), Some(&s("b=2")));
    assert_eq!(data.all_headers.get(&s("etag")), Some(&s("x")));
}

#[test]
fn a_failed_call_becomes_the_mark_of_failure() {
    let (state, action) = in_flight("r2").step(WorkerEvent::CallFailed);
    assert_eq!(state, WorkerState::Completing);
    assert_eq!(
        action,
        WorkerAction::PutResponse(HTTPResponse { request_id: s("r2"), data: Err(()) }),
    );
    assert_eq!(failed_call_response(s("z")), HTTPResponse { request_id: s("z"), data: Err(()) });
}

#[test]
fn a_header_value_that_is_no_text_crashes_the_worker() {
    let answer = TransportReply {
        status_code: 200,
        header_lines: vec![(s("a"), Some(s("1"))), (s("b"), None)],
        body: b"ok".to_vec(),
    };
    let (state, action) = in_flight("r1").step(WorkerEvent::CallCompleted(answer));
    assert_eq!(state, WorkerState::Crashed { reason: CrashReason::UndecodableHeaderValue });
    assert_eq!(action, WorkerAction::Halt(CrashReason::UndecodableHeaderValue));
}

#[test]
fn a_body_that_is_no_text_crashes_the_worker() {
    let answer = TransportReply {
        status_code: 200,
        header_lines: vec![(s("a"), Some(s("1")))],
        body: vec![b'o', 0x80, b'k'],
    };
    let (state, action) = in_flight("r1").step(WorkerEvent::CallCompleted(answer));
    assert_eq!(state, WorkerState::Crashed { reason: CrashReason::UndecodableBody });
    assert_eq!(action, WorkerAction::Halt(CrashReason::UndecodableBody));
}

#[test]
fn a_bad_header_value_is_found_before_a_bad_body() {
    let answer = TransportReply {
        status_code: 200,
        header_lines: vec![(s("b"), None)],
        body: vec![b'o', 0x80, b'k'],
    };
    assert_eq!(
        answered_call_response(s("t"), answer),
        Err(CrashReason::UndecodableHeaderValue),
    );
}

#[test]
fn an_accepted_response_ends_the_cycle() {
    let (state, action) = WorkerState::Completing.step(WorkerEvent::ResponseAccepted);
    assert_eq!(state, WorkerState::Idle);
    assert_eq!(action, WorkerAction::NextCycle);
}

#[test]
fn a_closed_response_mailbox_crashes_the_worker() {
    let (state, action) = WorkerState::Completing.step(WorkerEvent::ResponseMailboxClosed);
    assert_eq!(state, WorkerState::Crashed { reason: CrashReason::ResponseMailboxClosed });
    assert_eq!(action, WorkerAction::Halt(CrashReason::ResponseMailboxClosed));
}

#[test]
fn an_event_out_of_turn_crashes_the_worker() {
    let crashed = WorkerState::Crashed { reason: CrashReason::UnexpectedEvent };
    let halt = WorkerAction::Halt(CrashReason::UnexpectedEvent);
    assert_eq!(WorkerState::Idle.step(WorkerEvent::CallFailed), (
        WorkerState::Crashed { reason: CrashReason::UnexpectedEvent },
        WorkerAction::Halt(CrashReason::UnexpectedEvent),
    ));
    let (state, action) = WorkerState::Idle.step(WorkerEvent::ResponseAccepted);
    assert_eq!((&state, &action), (&crashed, &halt));
    let (state, action) = WorkerState::Dequeuing.step(WorkerEvent::Scheduled);
    assert_eq!((&state, &action), (&crashed, &halt));
    let (state, action) = in_flight("t").step(WorkerEvent::RequestTaken(get("u", "v", &[])));
    assert_eq!((&state, &action), (&crashed, &halt));
    let (state, action) = in_flight("t").step(WorkerEvent::ResponseAccepted);
    assert_eq!((&state, &action), (&crashed, &halt));
    let (state, action) = WorkerState::Completing.step(WorkerEvent::CallFailed);
    assert_eq!((&state, &action), (&crashed, &halt));
    let (state, action) = WorkerState::Completing.step(WorkerEvent::RequestMailboxClosed);
    assert_eq!((&state, &action), (&crashed, &halt));
}

#[test]
fn nothing_leaves_the_crashed_state() {
    let reason = CrashReason::MalformedHeaders;
    let events = vec![
        WorkerEvent::Scheduled,
        WorkerEvent::RequestTaken(get("t", "u", &[])),
        WorkerEvent::RequestMailboxClosed,
        WorkerEvent::CallCompleted(reply(200, &[], "")),
        WorkerEvent::CallFailed,
        WorkerEvent::ResponseAccepted,
        WorkerEvent::ResponseMailboxClosed,
    ];
    for event in events {
        let (state, action) = WorkerState::Crashed { reason }.step(event);
        assert_eq!(state, WorkerState::Crashed { reason });
        assert_eq!(action, WorkerAction::Halt(reason));
    }
}

#[test]
fn a_failed_call_does_not_end_the_loop() {
    let mut state = WorkerState::new();
    for token in ["a", "b", "c"] {
        let (next, action) = state.step(WorkerEvent::Scheduled);
        assert_eq!(action, WorkerAction::TakeRequest);
        let (next, action) = next.step(WorkerEvent::RequestTaken(get(token, "http://h.test", &[])));
        assert!(matches!(action, WorkerAction::PerformCall(_)));
        let (next, action) = next.step(WorkerEvent::CallFailed);
        assert_eq!(
            action,
            WorkerAction::PutResponse(HTTPResponse { request_id: s(token), data: Err(()) }),
        );
        let (next, action) = next.step(WorkerEvent::ResponseAccepted);
        assert_eq!(action, WorkerAction::NextCycle);
        assert_eq!(next, WorkerState::Idle);
        state = next;
    }
}

#[test]
fn a_body_beyond_ascii_is_decoded() {
    let text = "caf\u{e9} \u{4e16}\u{754c} \u{1f600}";
    let built = answered_call_response(s("t"), reply(200, &[], text)).unwrap();
    assert_eq!(built.data.unwrap().body, text);
}

#[test]
fn an_empty_body_is_the_empty_text() {
    let answer = TransportReply { status_code: 204, header_lines: Vec::new(), body: Vec::new() };
    let built = answered_call_response(s("t"), answer).unwrap();
    assert_eq!(built.data.unwrap().body, "");
}

#[test]
fn bytes_that_are_no_utf8_are_no_body() {
    let bad: Vec<Vec<u8>> = vec![
        vec![0xff],
        vec![0x80],
        vec![0xc3],
        vec![0xc0, 0xaf],
        vec![0xe0, 0x80, 0xaf],
        vec![0xed, 0xa0, 0x80],
        vec![0xf4, 0x90, 0x80, 0x80],
        vec![b'a', 0xe2, 0x82],
    ];
    for body in bad {
        let answer = TransportReply { status_code: 200, header_lines: Vec::new(), body };
        assert_eq!(answered_call_response(s("t"), answer), Err(CrashReason::UndecodableBody));
    }
}
