use rsground::lsp::{JsonRpcVersion, LspId, LspNotify, LspOutput, LspRequest, LspResponse};
use rsground::lsp_session::{
    client_action, forward_client_message, restore_response_id, route_server_message,
    ClientAction, LspStdin, ServerRoute,
};
use serde_json::Value;

fn request(id: LspId, method: &str) -> LspOutput {
    LspOutput::Request(LspRequest {
        jsonrpc: JsonRpcVersion,
        id,
        method: method.to_owned(),
        params: Value::Null,
    })
}

fn notify(method: &str) -> LspOutput {
    LspOutput::Notify(LspNotify { jsonrpc: JsonRpcVersion, method: method.to_owned(), params: Value::Null })
}

fn success(id: LspId) -> LspOutput {
    LspOutput::Response(LspResponse::Success { jsonrpc: JsonRpcVersion, id, result: Value::Bool(true) })
}

fn failure(id: LspId) -> LspOutput {
    LspOutput::Response(LspResponse::Failure { jsonrpc: JsonRpcVersion, id, error: Value::Null })
}

fn frame(body: &str) -> String {
    format!("Content-Length: {}\r\n\r\n{}", body.len(), body)
}

#[test]
fn held_messages_follow_the_initialized_notification_in_order() {
    let mut stdin = LspStdin::new();
    assert!(stdin.should_start());
    stdin.started();
    assert!(!stdin.should_start());
    assert_eq!(stdin.stdin("first".to_owned(), true), None);
    assert_eq!(stdin.stdin("init".to_owned(), false), Some(frame("init")));
    assert_eq!(stdin.stdin("second".to_owned(), true), None);
    let written = stdin.initialized("ready".to_owned());
    assert_eq!(written, vec![frame("ready"), frame("first"), frame("second")]);
    assert_eq!(stdin.stdin("third".to_owned(), true), Some(frame("third")));
    assert!(stdin.initialized("again".to_owned()) == vec![frame("again")]);
}

#[test]
fn nothing_is_written_without_a_server() {
    let mut stdin = LspStdin::new();
    assert_eq!(stdin.stdin("lost".to_owned(), false), None);
    assert_eq!(stdin.stdin("held".to_owned(), true), None);
    assert!(stdin.initialized("ready".to_owned()).is_empty());
    assert_eq!(stdin.stdin("late".to_owned(), true), None);
}

#[test]
fn a_killed_server_holds_messages_again() {
    let mut stdin = LspStdin::new();
    stdin.started();
    stdin.initialized("ready".to_owned());
    stdin.kill();
    assert!(stdin.should_start());
    assert_eq!(stdin.stdin("held".to_owned(), true), None);
    stdin.started();
    assert_eq!(stdin.initialized("ready".to_owned()), vec![frame("ready"), frame("held")]);
}

#[test]
fn exited_server_is_started_again() {
    let mut stdin = LspStdin::new();
    stdin.started();
    stdin.exited();
    assert!(stdin.should_start());
    assert_eq!(stdin.stdin("x".to_owned(), false), None);
}

#[test]
fn client_messages_are_sorted() {
    assert_eq!(client_action(&request(LspId::Number(1), "initialize")), ClientAction::AnswerInitialize);
    assert_eq!(client_action(&notify("initialized")), ClientAction::Ignore);
    assert_eq!(client_action(&request(LspId::Number(1), "textDocument/hover")), ClientAction::Forward);
    assert_eq!(client_action(&notify("initialize")), ClientAction::Forward);
    assert_eq!(client_action(&success(LspId::Number(1))), ClientAction::Forward);
}

#[test]
fn forwarded_messages_carry_the_client_id() {
    match forward_client_message(request(LspId::Number(3), "textDocument/hover"), "abc", "3") {
        LspOutput::Request(req) => {
            assert!(req.id.eq_str("client_id::abc::3"));
            assert_eq!(req.method, "textDocument/hover");
        }
        other => panic!("unexpected {other:?}"),
    }
    match forward_client_message(failure(LspId::String("x".to_owned())), "c", "\"x\"") {
        LspOutput::Response(res) => {
            assert!(res.is_err());
            assert!(res.id().eq_str("client_id::c::\"x\""));
        }
        other => panic!("unexpected {other:?}"),
    }
    match forward_client_message(notify("exit"), "c", "1") {
        LspOutput::Notify(n) => assert_eq!(n.method, "exit"),
        other => panic!("unexpected {other:?}"),
    }
}

#[test]
fn server_messages_are_routed() {
    let init = LspId::String("rsground::initialize".to_owned());
    assert!(matches!(route_server_message(&success(init.clone())), ServerRoute::InitializeSucceeded));
    assert!(matches!(route_server_message(&failure(init)), ServerRoute::InitializeFailed));
    match route_server_message(&success(LspId::String("client_id::abc::3".to_owned()))) {
        ServerRoute::ToClient { client_id, id_json } => {
            assert_eq!(client_id, "abc");
            assert_eq!(id_json, "3");
        }
        other => panic!("unexpected {other:?}"),
    }
    assert!(matches!(route_server_message(&success(LspId::Number(7))), ServerRoute::ToAll));
    assert!(matches!(route_server_message(&success(LspId::String("plain".to_owned()))), ServerRoute::ToAll));
    assert!(matches!(route_server_message(&request(LspId::Number(1), "workspace/configuration")), ServerRoute::ToAll));
    assert!(matches!(route_server_message(&notify("window/logMessage")), ServerRoute::ToAll));
}

#[test]
fn restored_responses_keep_their_result() {
    let res = LspResponse::Success { jsonrpc: JsonRpcVersion, id: LspId::String("client_id::a::5".to_owned()), result: Value::Bool(true) };
    match restore_response_id(res, LspId::Number(5)) {
        LspResponse::Success { id, result, .. } => {
            assert!(id.eq_number(5));
            assert_eq!(result, Value::Bool(true));
        }
        other => panic!("unexpected {other:?}"),
    }
}
