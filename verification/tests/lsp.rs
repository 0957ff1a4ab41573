use rsground::lsp::{frame_message, split_client_id, tag_client_id, JsonRpcVersion, LspId, LspNotify, LspOutput, LspRequest, LspResponse};

#[test]
fn ids_compare_and_display() {
    let s = LspId::String("abc".to_owned());
    let n = LspId::Number(42);
    assert_eq!(s.as_string(), Some(&"abc".to_owned()));
    assert_eq!(n.as_string(), None);
    assert!(n.eq_number(42) && !n.eq_number(41) && !s.eq_number(42));
    assert!(s.eq_str("abc") && !s.eq_str("ab") && !n.eq_str("42"));
    assert_eq!(s.display(), "abc");
    assert_eq!(n.display(), "42");
}

#[test]
fn messages_are_framed_with_byte_length() {
    assert_eq!(frame_message("{}"), "Content-Length: 2\r\n\r\n{}");
    assert_eq!(frame_message("ñ"), "Content-Length: 2\r\n\r\nñ");
    assert_eq!(frame_message(""), "Content-Length: 0\r\n\r\n");
}

#[test]
fn client_ids_round_trip() {
    let tagged = tag_client_id("c1", "\"7\"");
    assert_eq!(tagged, "client_id::c1::\"7\"");
    assert_eq!(split_client_id(&tagged), Some(("c1".to_owned(), "\"7\"".to_owned())));
    assert_eq!(split_client_id("client_id::c2::a::b"), Some(("c2".to_owned(), "a::b".to_owned())));
    assert_eq!(split_client_id("client_id::nosep"), None);
    assert_eq!(split_client_id("other::a::b"), None);
}

#[test]
fn output_accessors() {
    let req = LspOutput::Request(LspRequest {
        jsonrpc: JsonRpcVersion,
        id: LspId::Number(1),
        method: "initialize".to_owned(),
        params: serde_json::Value::Null,
    });
    assert!(req.is_request() && !req.is_notify() && !req.is_response());
    assert_eq!(req.method(), Some(&"initialize".to_owned()));
    assert!(matches!(req.id(), Some(LspId::Number(1))));
    assert!(req.as_request().is_some());
    assert!(req.params().is_some());

    let note = LspOutput::Notify(LspNotify {
        jsonrpc: JsonRpcVersion,
        method: "initialized".to_owned(),
        params: serde_json::Value::Null,
    });
    assert!(note.id().is_none() && note.is_notify() && note.as_notify().is_some());

    let res = LspOutput::Response(LspResponse::Failure {
        jsonrpc: JsonRpcVersion,
        id: LspId::String("x".to_owned()),
        error: serde_json::Value::Null,
    });
    assert!(res.is_response() && res.method().is_none() && res.params().is_none());
    match res.as_response() {
        Some(r) => {
            assert!(r.is_err() && !r.is_ok());
            assert!(r.id().eq_str("x"));
        }
        None => panic!("response expected"),
    }
}

#[test]
fn only_json_rpc_two_is_read() {
    assert_eq!(JsonRpcVersion.as_str(), "2.0");
    assert!(JsonRpcVersion::from_text("2.0").is_some());
    assert!(JsonRpcVersion::from_text("1.0").is_none());
    assert!(JsonRpcVersion::from_text("2.0 ").is_none());
}
