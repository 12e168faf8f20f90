use mcp_client::codec::{
    build_notification, build_request, decode_response, encode_call_params, encode_request,
    frame_step, initialize_params, parse_call_result, parse_list_tools, FrameStep,
};
use mcp_client::engine::{DispatchOutcome, Engine};
use mcp_client::errors::{complete_call, RpcClientError};
use mcp_client::types::{CallToolRequest, Content};

#[test]
fn round_trip_list_tools() {
    // call("tools/list", {}) through a fresh engine: the first id is 1 and the
    // frame on the wire is exactly the envelope below.
    let mut e = Engine::new();
    let id = e.begin_call().unwrap();
    assert_eq!(id, 1);
    let req = build_request(id, "tools/list", None);
    assert_eq!(
        encode_request(&req),
        "{\"jsonrpc\":\"2.0\",\"id\":1,\"method\":\"tools/list\"}"
    );
    // The transport answers; the dispatcher decodes and routes by id.
    let frame =
        "{\"jsonrpc\":\"2.0\",\"id\":1,\"result\":{\"tools\":[{\"name\":\"echo\",\"input_schema\":{}}]}}";
    let resp = decode_response(frame).unwrap();
    assert_eq!(resp.id, Some(1));
    assert_eq!(e.dispatch(resp.id), DispatchOutcome::Resolved(1));
    let result_text = complete_call(resp).unwrap();
    let tools = parse_list_tools(&result_text).unwrap();
    assert_eq!(tools.tools.len(), 1);
    assert_eq!(tools.tools[0].name(), "echo");
    assert_eq!(tools.tools[0].description, None);
    assert_eq!(tools.next_cursor, None);
}

#[test]
fn error_response_fails_the_call_and_clears_the_entry() {
    let mut e = Engine::new();
    let first = e.begin_call().unwrap();
    let second = e.begin_call().unwrap();
    assert_eq!((first, second), (1, 2));
    let frame =
        "{\"jsonrpc\":\"2.0\",\"id\":2,\"error\":{\"code\":-32601,\"message\":\"method not found\"}}";
    let resp = decode_response(frame).unwrap();
    assert_eq!(resp.id, Some(2));
    assert_eq!(e.dispatch(resp.id), DispatchOutcome::Resolved(2));
    let outcome = complete_call(resp);
    match outcome {
        Err(RpcClientError::Rpc(err)) => {
            assert_eq!(err.code, -32601);
            assert_eq!(err.message, "method not found");
            assert_eq!(err.to_text(), "MCP Error -32601: method not found");
        }
        other => panic!("expected an rpc error, got {:?}", other),
    }
    // No entry for id 2 remains.
    assert_eq!(e.dispatch(Some(2)), DispatchOutcome::Ignored);
    assert_eq!(e.pending_count(), 1);
}

#[test]
fn notification_has_no_id() {
    let req = build_notification("notifications/initialized", None);
    assert_eq!(
        encode_request(&req),
        "{\"jsonrpc\":\"2.0\",\"method\":\"notifications/initialized\"}"
    );
}

#[test]
fn request_params_are_carried_verbatim() {
    let req = build_request(7, "tools/call", Some("{\"name\":\"echo\",\"arguments\":{}}".to_string()));
    assert_eq!(
        encode_request(&req),
        "{\"jsonrpc\":\"2.0\",\"id\":7,\"method\":\"tools/call\",\"params\":{\"name\":\"echo\",\"arguments\":{}}}"
    );
}

#[test]
fn method_names_are_escaped() {
    let req = build_notification("a\"b\\c\nd\te\u{01}", None);
    assert_eq!(
        encode_request(&req),
        "{\"jsonrpc\":\"2.0\",\"method\":\"a\\\"b\\\\c\\nd\\te\\u0001\"}"
    );
}

#[test]
fn large_ids_render_in_decimal() {
    let req = build_request(18446744073709551614, "m", None);
    assert_eq!(
        encode_request(&req),
        "{\"jsonrpc\":\"2.0\",\"id\":18446744073709551614,\"method\":\"m\"}"
    );
}

#[test]
fn call_params_embed_the_arguments() {
    let params = encode_call_params(&CallToolRequest {
        name: "my tool".to_string(),
        arguments: "{\"x\":[1,2]}".to_string(),
    });
    assert_eq!(params, "{\"name\":\"my tool\",\"arguments\":{\"x\":[1,2]}}");
}

#[test]
fn initialize_params_are_the_fixed_handshake() {
    let p = initialize_params();
    assert_eq!(
        p,
        "{\"protocolVersion\":\"2024-11-05\",\"capabilities\":{},\"clientInfo\":{\"name\":\"bedrock-mcp\",\"version\":\"0.1.0\"}}"
    );
    // The handshake parameters are themselves valid JSON.
    assert!(serde_json::from_str::<serde_json::Value>(&p).is_ok());
}

#[test]
fn malformed_frame_is_reported_as_such() {
    match decode_response("not json at all") {
        Err(RpcClientError::MalformedFrame(t)) => assert_eq!(t, "not json at all"),
        other => panic!("expected a malformed frame error, got {:?}", other),
    }
    assert!(matches!(
        decode_response("[1,2,3]"),
        Err(RpcClientError::MalformedFrame(_))
    ));
}

#[test]
fn wrong_shapes_are_protocol_errors() {
    // Wrong version tag.
    assert!(matches!(
        decode_response("{\"jsonrpc\":\"1.0\",\"id\":1,\"result\":null}"),
        Err(RpcClientError::Protocol(_))
    ));
    // Missing version tag.
    assert!(matches!(
        decode_response("{\"id\":1,\"result\":null}"),
        Err(RpcClientError::Protocol(_))
    ));
    // Both result and error.
    assert!(matches!(
        decode_response(
            "{\"jsonrpc\":\"2.0\",\"id\":1,\"result\":1,\"error\":{\"code\":1,\"message\":\"m\"}}"
        ),
        Err(RpcClientError::Protocol(_))
    ));
    // Neither result nor error.
    assert!(matches!(
        decode_response("{\"jsonrpc\":\"2.0\",\"id\":1}"),
        Err(RpcClientError::Protocol(_))
    ));
    // An error object of the wrong shape.
    assert!(matches!(
        decode_response("{\"jsonrpc\":\"2.0\",\"id\":1,\"error\":{\"code\":\"x\"}}"),
        Err(RpcClientError::Protocol(_))
    ));
}

#[test]
fn response_fields_are_decoded() {
    let resp =
        decode_response("{\"jsonrpc\":\"2.0\",\"id\":5,\"result\":{\"content\":[]}}").unwrap();
    assert_eq!(resp.jsonrpc, "2.0");
    assert_eq!(resp.id, Some(5));
    assert_eq!(resp.result.as_deref(), Some("{\"content\":[]}"));
    assert!(resp.error.is_none());
    // A response whose id is absent or not an unsigned integer decodes with no
    // id and is later discarded by the dispatcher.
    let resp = decode_response("{\"jsonrpc\":\"2.0\",\"id\":null,\"result\":0}").unwrap();
    assert_eq!(resp.id, None);
}

#[test]
fn error_data_is_kept() {
    let frame =
        "{\"jsonrpc\":\"2.0\",\"id\":3,\"error\":{\"code\":5,\"message\":\"boom\",\"data\":[1]}}";
    let resp = decode_response(frame).unwrap();
    let err = resp.error.unwrap();
    assert_eq!(err.code, 5);
    assert_eq!(err.message, "boom");
    assert_eq!(err.data.as_deref(), Some("[1]"));
}

#[test]
fn null_error_member_is_a_protocol_error() {
    // The envelope has an error member whose text is "null"; that text does
    // not decode as an error object, so the frame has no acceptable shape.
    let frame = "{\"jsonrpc\":\"2.0\",\"id\":9,\"error\":null}";
    assert!(matches!(
        decode_response(frame),
        Err(RpcClientError::Protocol(_))
    ));
}

#[test]
fn tool_lists_with_descriptions_and_cursor() {
    let text = "{\"tools\":[{\"name\":\"a\",\"description\":\"first\",\"input_schema\":{\"type\":\"object\"}},{\"name\":\"b\",\"input_schema\":true}],\"next_cursor\":\"more\"}";
    let lt = parse_list_tools(text).unwrap();
    assert_eq!(lt.tools.len(), 2);
    assert_eq!(lt.tools[0].name(), "a");
    assert_eq!(lt.tools[0].description.as_deref(), Some("first"));
    assert_eq!(lt.tools[0].input_schema, "{\"type\":\"object\"}");
    assert_eq!(lt.tools[1].name(), "b");
    assert_eq!(lt.tools[1].description, None);
    assert_eq!(lt.next_cursor.as_deref(), Some("more"));
    // A result without a well-shaped tools array is a protocol error.
    assert!(matches!(
        parse_list_tools("{\"tools\":[{\"no_name\":1}]}"),
        Err(RpcClientError::Protocol(_))
    ));
    assert!(matches!(
        parse_list_tools("null"),
        Err(RpcClientError::Protocol(_))
    ));
}

#[test]
fn call_results_decode_all_content_kinds() {
    let text = "{\"content\":[{\"type\":\"text\",\"text\":\"hi\"},{\"type\":\"image\",\"data\":\"abcd\",\"mime_type\":\"image/png\"},{\"type\":\"embedded_resource\",\"resource\":{\"uri\":\"u\"}}],\"is_error\":true}";
    let cr = parse_call_result(text).unwrap();
    assert!(cr.is_error);
    assert_eq!(cr.content.len(), 3);
    assert!(matches!(&cr.content[0], Content::Text { text } if text == "hi"));
    assert!(
        matches!(&cr.content[1], Content::Image { data, mime_type } if data == "abcd" && mime_type == "image/png")
    );
    assert!(
        matches!(&cr.content[2], Content::EmbeddedResource { resource } if resource == "{\"uri\":\"u\"}")
    );
    // is_error defaults to false when absent.
    let cr = parse_call_result("{\"content\":[]}").unwrap();
    assert!(!cr.is_error);
    assert_eq!(cr.content.len(), 0);
    // An unknown content kind is a protocol error.
    assert!(matches!(
        parse_call_result("{\"content\":[{\"type\":\"video\"}]}"),
        Err(RpcClientError::Protocol(_))
    ));
}

#[test]
fn encoded_frames_are_valid_json() {
    // The verified encoder writes its own escaping; a real JSON parser must
    // read back exactly the original method name.
    let method = "a\"b\\c\nd\te\u{01}\u{1f}m\u{7}\u{3000}end";
    let req = build_request(42, method, Some("{\"k\":[1,2,{\"n\":null}]}".to_string()));
    let frame = encode_request(&req);
    let v: serde_json::Value = serde_json::from_str(&frame).unwrap();
    assert_eq!(v.get("jsonrpc").unwrap().as_str().unwrap(), "2.0");
    assert_eq!(v.get("id").unwrap().as_u64().unwrap(), 42);
    assert_eq!(v.get("method").unwrap().as_str().unwrap(), method);
    assert_eq!(v.get("params").unwrap().to_string(), "{\"k\":[1,2,{\"n\":null}]}");
}

#[test]
fn loop_policy_routes_shape_failures_and_stops_on_corrupt_frames() {
    // A decoded frame of the wrong shape carries its protocol error to the
    // caller bearing its id; the session goes on.
    match frame_step("{\"jsonrpc\":\"2.0\",\"id\":4}") {
        FrameStep::Reject(Some(4), RpcClientError::Protocol(_)) => {}
        other => panic!("expected a routed protocol error, got {:?}", other),
    }
    // One that bears no id has no caller to reach: rejected without a target.
    match frame_step("{\"jsonrpc\":\"1.0\",\"result\":1}") {
        FrameStep::Reject(None, RpcClientError::Protocol(_)) => {}
        other => panic!("expected an untargeted protocol error, got {:?}", other),
    }
    // A frame that is not JSON invalidates the framing: the session ends.
    match frame_step("###") {
        FrameStep::Stop(RpcClientError::MalformedFrame(t)) => assert_eq!(t, "###"),
        other => panic!("expected a stop, got {:?}", other),
    }
    // A well-shaped frame is delivered.
    match frame_step("{\"jsonrpc\":\"2.0\",\"id\":1,\"result\":7}") {
        FrameStep::Deliver(resp) => {
            assert_eq!(resp.id, Some(1));
            assert_eq!(resp.result.as_deref(), Some("7"));
        }
        other => panic!("expected a delivery, got {:?}", other),
    }
}

#[test]
fn ill_typed_members_are_protocol_errors() {
    // A description that is present but no string fails, as the original
    // parse did; a null one counts as absent.
    assert!(matches!(
        parse_list_tools("{\"tools\":[{\"name\":\"a\",\"description\":5,\"input_schema\":{}}]}"),
        Err(RpcClientError::Protocol(_))
    ));
    let lt =
        parse_list_tools("{\"tools\":[{\"name\":\"a\",\"description\":null,\"input_schema\":{}}]}")
            .unwrap();
    assert_eq!(lt.tools[0].description, None);
    // The same for the paging cursor.
    assert!(matches!(
        parse_list_tools("{\"tools\":[],\"next_cursor\":7}"),
        Err(RpcClientError::Protocol(_))
    ));
    assert_eq!(parse_list_tools("{\"tools\":[],\"next_cursor\":null}").unwrap().next_cursor, None);
    // And for the error flag of a call result.
    assert!(matches!(
        parse_call_result("{\"content\":[],\"is_error\":\"yes\"}"),
        Err(RpcClientError::Protocol(_))
    ));
}
