use mcp_client::errors::{complete_call, merge_shutdown_results, settle_call, RpcClientError};
use mcp_client::text::{trim, u64_to_string};
use mcp_client::types::{CallToolResult, Content, JsonRpcError, JsonRpcResponse};

fn ok_response(result: Option<&str>) -> JsonRpcResponse {
    JsonRpcResponse {
        jsonrpc: "2.0".to_string(),
        id: Some(1),
        result: result.map(|r| r.to_string()),
        error: None,
    }
}

#[test]
fn completion_returns_the_result_text() {
    assert_eq!(complete_call(ok_response(Some("{\"a\":1}"))).unwrap(), "{\"a\":1}");
    assert_eq!(complete_call(ok_response(Some("null"))).unwrap(), "null");
    // A response carrying neither result nor error has no acceptable shape.
    assert!(matches!(
        complete_call(ok_response(None)),
        Err(RpcClientError::Protocol(t)) if t == "response carries neither result nor error"
    ));
}

#[test]
fn settlement_passes_routed_failures_through() {
    assert_eq!(settle_call(Ok(ok_response(Some("1")))).unwrap(), "1");
    assert!(matches!(
        settle_call(Err(RpcClientError::Protocol("bad frame".to_string()))),
        Err(RpcClientError::Protocol(t)) if t == "bad frame"
    ));
    assert!(matches!(
        settle_call(Err(RpcClientError::Disconnected)),
        Err(RpcClientError::Disconnected)
    ));
}

#[test]
fn completion_surfaces_the_peer_error() {
    let resp = JsonRpcResponse {
        jsonrpc: "2.0".to_string(),
        id: Some(4),
        result: None,
        error: Some(JsonRpcError { code: 7, message: "nope".to_string(), data: None }),
    };
    match complete_call(resp) {
        Err(RpcClientError::Rpc(e)) => {
            assert_eq!(e.code, 7);
            assert_eq!(e.message, "nope");
        }
        other => panic!("expected an rpc error, got {:?}", other),
    }
}

#[test]
fn shutdown_failures_are_merged() {
    assert!(merge_shutdown_results(Ok(()), Ok(())).is_ok());
    assert!(matches!(
        merge_shutdown_results(Ok(()), Err(RpcClientError::Transport("close".to_string()))),
        Err(RpcClientError::Transport(t)) if t == "close"
    ));
    assert!(matches!(
        merge_shutdown_results(Err(RpcClientError::Disconnected), Ok(())),
        Err(RpcClientError::Disconnected)
    ));
    match merge_shutdown_results(
        Err(RpcClientError::Disconnected),
        Err(RpcClientError::Transport("close".to_string())),
    ) {
        Err(RpcClientError::ShutdownFailure(call_err, close_err)) => {
            assert!(matches!(*call_err, RpcClientError::Disconnected));
            assert!(matches!(*close_err, RpcClientError::Transport(t) if t == "close"));
        }
        other => panic!("expected a combined failure, got {:?}", other),
    }
}

#[test]
fn as_text_renders_and_trims_mixed_content() {
    let cr = CallToolResult {
        content: vec![
            Content::Text { text: "hello".to_string() },
            Content::Image { data: "x".to_string(), mime_type: "image/png".to_string() },
            Content::Text { text: "world".to_string() },
            Content::EmbeddedResource { resource: "{}".to_string() },
        ],
        is_error: false,
    };
    assert_eq!(
        cr.as_text(),
        "hello\n[Image Content from MCP Tool]\nworld\n[Embedded Resource from MCP Tool]"
    );
    let empty = CallToolResult { content: vec![], is_error: false };
    assert_eq!(empty.as_text(), "");
    let only_ws = CallToolResult {
        content: vec![Content::Text { text: " \t ".to_string() }],
        is_error: false,
    };
    assert_eq!(only_ws.as_text(), "");
}

#[test]
fn error_rendering_is_one_line() {
    let e = JsonRpcError { code: -32601, message: "method not found".to_string(), data: None };
    assert_eq!(e.to_text(), "MCP Error -32601: method not found");
    let e = JsonRpcError { code: 0, message: "zero".to_string(), data: None };
    assert_eq!(e.to_text(), "MCP Error 0: zero");
    let e = JsonRpcError { code: i64::MIN, message: "m".to_string(), data: None };
    assert_eq!(e.to_text(), "MCP Error -9223372036854775808: m");
}

#[test]
fn text_helpers_behave_like_std() {
    assert_eq!(u64_to_string(0), "0");
    assert_eq!(u64_to_string(10), "10");
    assert_eq!(u64_to_string(u64::MAX), u64::MAX.to_string());
    for s in ["", "  ", "a", "  a  b\t", "\n\nx\u{3000}", "\u{2028}mid\u{2009}"] {
        assert_eq!(trim(s), s.trim(), "trim differs on {:?}", s);
    }
}
