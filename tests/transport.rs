use lspower::codec::{decode, encode, split_frame, Decoded, Framed};
use lspower::jsonrpc::{Error, ErrorCode, Id, Outcome, Outgoing, Response};
use lspower::router::{Action, Message, MethodDesc, Params, Router};
use lspower::state::StateKind;
use lspower::transport::display_sources;

const REQUEST: &str = r#"{"jsonrpc":"2.0","method":"initialize","params":{},"id":1}"#;
const RESPONSE: &str = r#"{"jsonrpc":"2.0","result":{"capabilities":{}},"id":1}"#;

fn mock_request() -> Vec<u8> {
    format!("Content-Length: {}\r\n\r\n{}", REQUEST.len(), REQUEST).into_bytes()
}

fn mock_response() -> Vec<u8> {
    format!("Content-Length: {}\r\n\r\n{}", RESPONSE.len(), RESPONSE).into_bytes()
}

fn table() -> Vec<MethodDesc> {
    vec![
        MethodDesc { name: "initialize".to_string(), has_params: true, has_result: true },
        MethodDesc { name: "initialized".to_string(), has_params: true, has_result: false },
        MethodDesc { name: "shutdown".to_string(), has_params: false, has_result: true },
        MethodDesc { name: "textDocument/hover".to_string(), has_params: true, has_result: true },
    ]
}

fn request(id: i64, method: &str, params: Option<Params>) -> Message {
    Message { id: Some(Id::Number(id)), method: method.to_string(), params }
}

fn valid(text: &str) -> Option<Params> {
    Some(Params::Valid(text.to_string()))
}

/// Brings a router through `initialize` into `Initialized`.
fn initialized_router() -> Router {
    let mut router = Router::new(table());
    match router.handle(request(1, "initialize", valid("{}"))) {
        Action::Initialize { id, .. } => {
            router.finish_initialize(id, Outcome::Result("{}".to_string()));
        },
        other => panic!("unexpected action {:?}", other),
    }
    assert_eq!(router.state, StateKind::Initialized);
    router
}

fn error_code(resp: &Response) -> i64 {
    match &resp.outcome {
        Outcome::Error(e) => e.code.code(),
        Outcome::Result(_) => panic!("expected an error response"),
    }
}

fn number(id: &Id) -> i64 {
    match id {
        Id::Number(n) => *n,
        _ => panic!("expected a numeric id"),
    }
}

#[test]
fn serves_on_stdio() {
    let input = mock_request();
    let (payload, consumed) = match decode(&input) {
        Decoded::Message { payload, consumed } => (payload, consumed),
        other => panic!("unexpected decode {:?}", other),
    };
    assert_eq!(consumed, 80);
    assert_eq!(payload, REQUEST.as_bytes());

    let mut router = Router::new(table());
    let action = router.handle(request(1, "initialize", valid("{}")));
    let id = match action {
        Action::Initialize { index, id, params } => {
            assert_eq!(index, 0);
            assert_eq!(params, "{}");
            id
        },
        other => panic!("unexpected action {:?}", other),
    };
    let resp = router
        .finish_initialize(id, Outcome::Result(r#"{"capabilities":{}}"#.to_string()))
        .unwrap();
    assert_eq!(Outgoing::Response(resp).to_frame(), mock_response());
}

#[test]
fn interleaves_messages() {
    let input = mock_request();
    match decode(&input) {
        Decoded::Message { consumed, .. } => assert_eq!(consumed, 80),
        other => panic!("unexpected decode {:?}", other),
    }
    let mut router = Router::new(table());
    let id = match router.handle(request(1, "initialize", valid("{}"))) {
        Action::Initialize { id, .. } => id,
        other => panic!("unexpected action {:?}", other),
    };
    let reply = router
        .finish_initialize(id, Outcome::Result(r#"{"capabilities":{}}"#.to_string()))
        .unwrap();
    let pushed = Response::ok(Id::Number(1), r#"{"capabilities":{}}"#.to_string());
    let mut output = Outgoing::Response(reply).to_frame();
    output.extend(Outgoing::Response(pushed).to_frame());
    let expected: Vec<u8> = mock_response().into_iter().chain(mock_response()).collect();
    assert_eq!(output, expected);
}

#[test]
fn handles_invalid_json() {
    let invalid = r#"{"jsonrpc":"2.0","method":"#;
    let message = format!("Content-Length: {}\r\n\r\n{}", invalid.len(), invalid).into_bytes();
    let router = Router::new(table());
    let consumed = match decode(&message) {
        Decoded::ParseError { consumed } => consumed,
        other => panic!("unexpected decode {:?}", other),
    };
    assert_eq!(consumed, 48);
    let err = r#"{"jsonrpc":"2.0","error":{"code":-32700,"message":"Parse error"},"id":null}"#;
    let output = format!("Content-Length: {}\r\n\r\n{}", err.len(), err).into_bytes();
    assert_eq!(Outgoing::Response(router.decode_failed()).to_frame(), output);
}

#[test]
fn frame_round_trip_keeps_following_bytes() {
    let payload = br#"{"jsonrpc":"2.0","method":"exit"}"#.to_vec();
    let mut stream = encode(&payload);
    let frame_len = stream.len();
    stream.extend_from_slice(b"Content-Length: 2\r\n\r\n{}");
    match decode(&stream) {
        Decoded::Message { payload: p, consumed } => {
            assert_eq!(p, payload);
            assert_eq!(consumed, frame_len);
        },
        other => panic!("unexpected decode {:?}", other),
    }
    assert_eq!(encode(b"{}"), b"Content-Length: 2\r\n\r\n{}".to_vec());
}

#[test]
fn decode_needs_whole_frame() {
    assert!(matches!(decode(b"Content-Length: 10\r\n"), Decoded::Incomplete));
    assert!(matches!(decode(b"Content-Length: 10\r\n\r\n{}"), Decoded::Incomplete));
    assert!(matches!(decode(b""), Decoded::Incomplete));
}

#[test]
fn decode_tolerates_other_headers() {
    let input = b"Content-Type: application/json\r\nContent-Length: 2\r\n\r\n[]";
    match decode(input) {
        Decoded::Message { payload, consumed } => {
            assert_eq!(payload, b"[]".to_vec());
            assert_eq!(consumed, input.len());
        },
        other => panic!("unexpected decode {:?}", other),
    }
}

#[test]
fn decode_rejects_bad_length() {
    assert!(matches!(decode(b"Content-Type: x\r\n\r\n{}"), Decoded::InvalidHeader { consumed: 19 }));
    assert!(matches!(decode(b"Content-Length: -2\r\n\r\n{}"), Decoded::InvalidHeader { consumed: 22 }));
    assert!(matches!(decode(b"Content-Length: \r\n\r\n"), Decoded::InvalidHeader { consumed: 20 }));
    let huge = b"Content-Length: 99999999999999999999999\r\n\r\n";
    assert!(matches!(decode(huge), Decoded::InvalidHeader { .. }));
}

#[test]
fn decode_failure_leaves_router_working() {
    let mut router = Router::new(table());
    let resp = router.decode_failed();
    assert!(matches!(resp.id, Id::Null));
    assert_eq!(error_code(&resp), -32700);
    assert_eq!(router.state, StateKind::Uninitialized);
    assert!(matches!(router.handle(request(1, "initialize", valid("{}"))), Action::Initialize { .. }));
}

#[test]
fn request_before_initialize_is_refused() {
    let mut router = Router::new(table());
    match router.handle(request(7, "textDocument/hover", valid("{}"))) {
        Action::Respond(resp) => {
            assert_eq!(number(&resp.id), 7);
            assert_eq!(error_code(&resp), -32002);
        },
        other => panic!("unexpected action {:?}", other),
    }
    let note = Message { id: None, method: "initialized".to_string(), params: valid("{}") };
    assert!(matches!(router.handle(note), Action::Nothing));
}

#[test]
fn initialize_with_missing_params_is_invalid() {
    let mut router = Router::new(table());
    match router.handle(request(3, "initialize", None)) {
        Action::Respond(resp) => {
            assert_eq!(number(&resp.id), 3);
            assert_eq!(error_code(&resp), -32602);
            match resp.outcome {
                Outcome::Error(e) => assert_eq!(e.message, "Missing params field"),
                _ => panic!("expected an error"),
            }
        },
        other => panic!("unexpected action {:?}", other),
    }
    assert_eq!(router.state, StateKind::Uninitialized);
}

#[test]
fn failed_initialize_returns_to_uninitialized() {
    let mut router = Router::new(table());
    let id = match router.handle(request(1, "initialize", valid("{}"))) {
        Action::Initialize { id, .. } => id,
        other => panic!("unexpected action {:?}", other),
    };
    assert_eq!(router.state, StateKind::Initializing);
    let resp = router.finish_initialize(id, Outcome::Error(Error::internal_error())).unwrap();
    assert_eq!(number(&resp.id), 1);
    assert_eq!(error_code(&resp), -32603);
    assert_eq!(router.state, StateKind::Uninitialized);
}

#[test]
fn duplicate_initialize_is_invalid_request() {
    let mut router = Router::new(table());
    assert!(matches!(router.handle(request(1, "initialize", valid("{}"))), Action::Initialize { .. }));
    match router.handle(request(2, "initialize", valid("{}"))) {
        Action::Respond(resp) => {
            assert_eq!(number(&resp.id), 2);
            assert_eq!(error_code(&resp), -32600);
        },
        other => panic!("unexpected action {:?}", other),
    }
    assert_eq!(router.state, StateKind::Initializing);
}

#[test]
fn cancellation_answers_request_cancelled() {
    let mut router = initialized_router();
    let ticket = match router.handle(request(5, "textDocument/hover", valid("{}"))) {
        Action::Run { index, ticket, params, replaced } => {
            assert_eq!(index, 3);
            assert_eq!(params, Some("{}".to_string()));
            assert!(replaced.is_none());
            ticket
        },
        other => panic!("unexpected action {:?}", other),
    };
    let cancel = request(5, "$/cancelRequest", None);
    match router.handle(cancel) {
        Action::Cancelled(Some(resp)) => {
            assert_eq!(number(&resp.id), 5);
            assert_eq!(error_code(&resp), -32800);
        },
        other => panic!("unexpected action {:?}", other),
    }
    assert!(router.finish(ticket, Outcome::Result("null".to_string())).is_none());
    assert!(matches!(router.handle(request(5, "$/cancelRequest", None)), Action::Cancelled(None)));
}

#[test]
fn finished_request_is_answered_once() {
    let mut router = initialized_router();
    let ticket = match router.handle(request(9, "textDocument/hover", valid("{}"))) {
        Action::Run { ticket, .. } => ticket,
        other => panic!("unexpected action {:?}", other),
    };
    let resp = router.finish(ticket, Outcome::Result("null".to_string())).unwrap();
    assert_eq!(number(&resp.id), 9);
    assert!(router.finish(ticket, Outcome::Result("null".to_string())).is_none());
    assert!(matches!(router.handle(request(9, "$/cancelRequest", None)), Action::Cancelled(None)));
}

#[test]
fn duplicate_id_cancels_earlier_request() {
    let mut router = initialized_router();
    let first = match router.handle(request(4, "textDocument/hover", valid("{}"))) {
        Action::Run { ticket, .. } => ticket,
        other => panic!("unexpected action {:?}", other),
    };
    let second = match router.handle(request(4, "textDocument/hover", valid("{}"))) {
        Action::Run { ticket, replaced: Some(resp), .. } => {
            assert_eq!(number(&resp.id), 4);
            assert_eq!(error_code(&resp), -32800);
            ticket
        },
        other => panic!("unexpected action {:?}", other),
    };
    assert!(router.finish(first, Outcome::Result("1".to_string())).is_none());
    assert!(router.finish(second, Outcome::Result("2".to_string())).is_some());
}

#[test]
fn invalid_params_are_answered_with_the_id() {
    let mut router = initialized_router();
    let bad = Some(Params::Invalid("expected a position".to_string()));
    match router.handle(request(6, "textDocument/hover", bad)) {
        Action::Respond(resp) => {
            assert_eq!(number(&resp.id), 6);
            assert_eq!(error_code(&resp), -32602);
        },
        other => panic!("unexpected action {:?}", other),
    }
    assert_eq!(router.pending.len(), 0);
}

#[test]
fn notifications_are_never_answered() {
    let mut router = initialized_router();
    let note = Message { id: None, method: "initialized".to_string(), params: valid("{}") };
    assert!(matches!(router.handle(note), Action::Notify { index: 1, params: Some(_) }));
    let bad = Message {
        id: None,
        method: "initialized".to_string(),
        params: Some(Params::Invalid("x".to_string())),
    };
    assert!(matches!(router.handle(bad), Action::Nothing));
    let unknown = Message { id: None, method: "$/progress".to_string(), params: None };
    assert!(matches!(router.handle(unknown), Action::Nothing));
}

#[test]
fn unknown_request_goes_to_fallback() {
    let mut router = Router::new(table());
    match router.handle(request(8, "custom/thing", valid("[1]"))) {
        Action::RunOther { method, params, replaced, .. } => {
            assert_eq!(method, "custom/thing");
            assert_eq!(params, Some("[1]".to_string()));
            assert!(replaced.is_none());
        },
        other => panic!("unexpected action {:?}", other),
    }
    assert_eq!(router.pending.len(), 1);
}

#[test]
fn shutdown_then_requests_are_invalid() {
    let mut router = initialized_router();
    let ticket = match router.handle(request(2, "shutdown", None)) {
        Action::Run { index: 2, ticket, params: None, .. } => ticket,
        other => panic!("unexpected action {:?}", other),
    };
    assert_eq!(router.state, StateKind::ShutDown);
    assert!(router.finish(ticket, Outcome::Result("null".to_string())).is_some());
    match router.handle(request(3, "textDocument/hover", valid("{}"))) {
        Action::Respond(resp) => assert_eq!(error_code(&resp), -32600),
        other => panic!("unexpected action {:?}", other),
    }
}

#[test]
fn exit_silences_pending_requests() {
    let mut router = initialized_router();
    let a = match router.handle(request(10, "textDocument/hover", valid("{}"))) {
        Action::Run { ticket, .. } => ticket,
        other => panic!("unexpected action {:?}", other),
    };
    let b = match router.handle(request(11, "textDocument/hover", valid("{}"))) {
        Action::Run { ticket, .. } => ticket,
        other => panic!("unexpected action {:?}", other),
    };
    let exit = Message { id: None, method: "exit".to_string(), params: None };
    assert!(matches!(router.handle(exit), Action::Nothing));
    assert_eq!(router.state, StateKind::Exited);
    assert!(!router.is_running());
    assert!(router.finish(a, Outcome::Result("1".to_string())).is_none());
    assert!(router.finish(b, Outcome::Result("2".to_string())).is_none());
    assert!(matches!(router.handle(request(12, "textDocument/hover", valid("{}"))), Action::Nothing));
    assert!(router.finish_initialize(Id::Number(1), Outcome::Result("{}".to_string())).is_none());
}

#[test]
fn cancel_request_before_initialize_is_ignored() {
    let mut router = Router::new(table());
    assert!(matches!(router.handle(request(1, "$/cancelRequest", None)), Action::Nothing));
}

#[test]
fn error_codes_have_their_numbers() {
    assert_eq!(ErrorCode::ParseError.code(), -32700);
    assert_eq!(ErrorCode::InvalidRequest.code(), -32600);
    assert_eq!(ErrorCode::MethodNotFound.code(), -32601);
    assert_eq!(ErrorCode::InvalidParams.code(), -32602);
    assert_eq!(ErrorCode::InternalError.code(), -32603);
    assert_eq!(ErrorCode::ServerNotInitialized.code(), -32002);
    assert_eq!(ErrorCode::RequestCancelled.code(), -32800);
    assert_eq!(ErrorCode::ServerError(-1).code(), -1);
    assert_eq!(ErrorCode::from_code(-32800), ErrorCode::RequestCancelled);
    assert_eq!(ErrorCode::from_code(7), ErrorCode::ServerError(7));
    assert_eq!(Error::method_not_found().code.code(), -32601);
}

#[test]
fn response_json_quotes_string_ids_and_data() {
    let resp = Response::error(
        Some(Id::String("a\"b".to_string())),
        Error { code: ErrorCode::ServerError(i64::MIN), message: "x\ny".to_string(), data: Some("[1]".to_string()) },
    );
    let text = String::from_utf8(resp.to_json()).unwrap();
    assert_eq!(
        text,
        r#"{"jsonrpc":"2.0","error":{"code":-9223372036854775808,"message":"x\ny","data":[1]},"id":"a\"b"}"#
    );
    let push = Outgoing::Request(r#"{"jsonrpc":"2.0","method":"window/logMessage"}"#.to_string());
    assert_eq!(push.to_json(), br#"{"jsonrpc":"2.0","method":"window/logMessage"}"#.to_vec());
}

#[test]
fn ids_compare_by_tag_and_value() {
    assert!(Id::Number(1).same(&Id::Number(1)));
    assert!(!Id::Number(1).same(&Id::String("1".to_string())));
    assert!(Id::Null.same(&Id::Null));
    assert!(Id::String("x".to_string()).same(&Id::String("x".to_string()).copy()));
}

#[test]
fn display_sources_joins_the_chain() {
    let chain = vec!["service failed".to_string(), "io error".to_string(), "broken pipe".to_string()];
    assert_eq!(display_sources(&chain), "service failed: io error: broken pipe");
    assert_eq!(display_sources(&vec!["alone".to_string()]), "alone");
    assert_eq!(display_sources(&Vec::new()), "");
}

#[test]
fn split_frame_does_not_look_at_json() {
    let input = b"Content-Length: 3\r\n\r\n{{{rest";
    match split_frame(input) {
        Framed::Frame { payload, consumed } => {
            assert_eq!(payload, b"{{{".to_vec());
            assert_eq!(consumed, 24);
        },
        other => panic!("unexpected split {:?}", other),
    }
    assert!(matches!(decode(input), Decoded::ParseError { consumed: 24 }));
    assert!(matches!(split_frame(b"Content-Length: 3\r\n\r\n{"), Framed::Incomplete));
}
