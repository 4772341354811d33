//! Tests for the JSON-RPC message model.

use mcp_guard::json::JsonValue;
use mcp_guard::rpc::{JsonRpcMessage, McpRequestParams};

fn text(s: &str) -> JsonValue {
    JsonValue::Str(s.to_string())
}

fn object(pairs: Vec<(&str, JsonValue)>) -> JsonValue {
    JsonValue::Object(pairs.into_iter().map(|(k, v)| (k.to_string(), v)).collect())
}

fn request(id: i64, method: &str, params: Option<JsonValue>) -> JsonRpcMessage {
    JsonRpcMessage {
        jsonrpc: "2.0".to_string(),
        id: Some(JsonValue::Int(id)),
        method: Some(method.to_string()),
        params,
        result: None,
        error: None,
    }
}

#[test]
fn test_rpc_parsing() {
    // {"jsonrpc": "2.0", "id": 1, "method": "tools/call",
    //  "params": {"name": "execute", "arguments": {"cmd": "ls"}}}
    let msg = request(
        1,
        "tools/call",
        Some(object(vec![("name", text("execute")), ("arguments", object(vec![("cmd", text("ls"))]))])),
    );
    assert!(msg.is_tool_call());
    assert!(!msg.is_resource_read());

    let params: McpRequestParams = msg.extract_mcp_params().expect("Should extract params");
    assert_eq!(params.name, "execute");
    assert_eq!(params.arguments.unwrap().get("cmd").unwrap().as_str().unwrap(), "ls");
}

#[test]
fn test_error_response_creation() {
    // {"jsonrpc": "2.0", "id": 42, "method": "tools/call", "params": {"name": "drop_db"}}
    let msg = request(42, "tools/call", Some(object(vec![("name", text("drop_db"))])));
    let err_msg = msg.create_error_response(-32000, "Blocked");

    assert_eq!(err_msg.jsonrpc, "2.0");
    assert_eq!(err_msg.id.unwrap().as_i64().unwrap(), 42);
    assert!(err_msg.method.is_none());
    assert!(err_msg.params.is_none());
    assert!(err_msg.result.is_none());

    let err_obj = err_msg.error.unwrap();
    assert_eq!(err_obj.get("code").unwrap().as_i64().unwrap(), -32000);
    assert_eq!(err_obj.get("message").unwrap().as_str().unwrap(), "Blocked");
}

#[test]
fn test_resource_read_and_other_methods() {
    let read = request(3, "resources/read", Some(object(vec![("name", text("file:///a"))])));
    assert!(read.is_resource_read());
    assert!(!read.is_tool_call());
    let list = request(4, "tools/list", None);
    assert!(!list.is_tool_call());
    assert!(!list.is_resource_read());
    assert!(list.extract_mcp_params().is_none());
}

#[test]
fn test_params_shapes() {
    // Missing name.
    let m = request(1, "tools/call", Some(object(vec![("something", text("else"))])));
    assert!(m.extract_mcp_params().is_none());
    // Name that is not a string.
    let m = request(1, "tools/call", Some(object(vec![("name", JsonValue::Int(5))])));
    assert!(m.extract_mcp_params().is_none());
    // Arguments that are null count as absent; unknown entries are ignored.
    let m = request(1, "tools/call", Some(object(vec![("name", text("t")), ("arguments", JsonValue::Null), ("x", JsonValue::Bool(true))])));
    let p = m.extract_mcp_params().unwrap();
    assert_eq!(p.name, "t");
    assert!(p.arguments.is_none());
    // A duplicated field is refused.
    let m = request(1, "tools/call", Some(object(vec![("name", text("t")), ("name", text("u"))])));
    assert!(m.extract_mcp_params().is_none());
    // The array form: name, then arguments.
    let m = request(1, "tools/call", Some(JsonValue::Array(vec![text("t"), object(vec![("a", text("b"))])])));
    let p = m.extract_mcp_params().unwrap();
    assert_eq!(p.name, "t");
    assert_eq!(p.arguments.unwrap().get("a").unwrap().as_str(), Some("b"));
    let m = request(1, "tools/call", Some(JsonValue::Array(vec![text("t")])));
    assert!(m.extract_mcp_params().unwrap().arguments.is_none());
    let m = request(1, "tools/call", Some(JsonValue::Array(vec![text("t"), JsonValue::Null, JsonValue::Null])));
    assert!(m.extract_mcp_params().is_none());
    let m = request(1, "tools/call", Some(JsonValue::Array(vec![])));
    assert!(m.extract_mcp_params().is_none());
    // Parameters that are a string.
    let m = request(1, "tools/call", Some(text("t")));
    assert!(m.extract_mcp_params().is_none());
}

#[test]
fn test_json_accessors() {
    assert_eq!(JsonValue::UInt(7).as_i64(), Some(7));
    assert_eq!(JsonValue::UInt(u64::MAX).as_i64(), None);
    assert_eq!(JsonValue::Float("1.5".to_string()).as_i64(), None);
    assert!(JsonValue::Null.is_null());
    assert!(text("x").get("x").is_none());
    let dup = object(vec![("k", text("first")), ("k", text("second"))]);
    assert_eq!(dup.get("k").unwrap().as_str(), Some("first"));
    let copy = dup.duplicate();
    assert_eq!(copy.get("k").unwrap().as_str(), Some("first"));
}

#[test]
fn test_object_params_follow_name_and_arguments() {
    // Distinct keys, any order: the name and the arguments are read by key.
    let m = request(
        1,
        "tools/call",
        Some(object(vec![("arguments", object(vec![("q", text("x"))])), ("extra", JsonValue::Int(1)), ("name", text("search"))])),
    );
    let p = m.extract_mcp_params().unwrap();
    assert_eq!(p.name, "search");
    assert_eq!(p.arguments.unwrap().get("q").unwrap().as_str(), Some("x"));
}
