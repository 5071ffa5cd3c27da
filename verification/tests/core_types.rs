//! Handle grammar, lifecycle state machine, and error code behavior.

use plexus::handle::Handle;
use plexus::mcp_error::{ErrorCode, McpError};
use plexus::mcp_state::{McpState, McpStateError, McpStateMachine};
use plexus::router::PlexusError;

#[test]
fn test_handle_display() {
    let handle = Handle::new("cone", "1.0.0", "chat")
        .push_meta("msg-123")
        .push_meta("user");
    assert_eq!(handle.display(), "cone@1.0.0::chat:msg-123:user");
}

#[test]
fn test_handle_parse() {
    let handle = Handle::parse("cone@1.0.0::chat:msg-123:user").unwrap();
    assert_eq!(handle.plugin, "cone");
    assert_eq!(handle.version, "1.0.0");
    assert_eq!(handle.method, "chat");
    assert_eq!(handle.meta, vec!["msg-123", "user"]);
}

#[test]
fn test_handle_parse_no_meta() {
    let handle = Handle::parse("bash@1.0.0::execute").unwrap();
    assert_eq!(handle.plugin, "bash");
    assert_eq!(handle.method, "execute");
    assert!(handle.meta.is_empty());
}

#[test]
fn handle_round_trip_with_empty_meta_entries() {
    let handle = Handle::new("cone", "1.0.0", "chat").with_meta(vec![
        String::new(),
        "x".to_string(),
        String::new(),
    ]);
    let text = handle.display();
    assert_eq!(text, "cone@1.0.0::chat::x:");
    assert_eq!(Handle::parse(&text).unwrap(), handle);
}

#[test]
fn handle_parse_rejects_missing_separators() {
    assert!(Handle::parse("no-at-sign").is_err());
    assert!(Handle::parse("plugin@version-no-double-colon").is_err());
    assert!(Handle::parse("@1.0.0::m").is_err());
    assert!(Handle::parse("p@::m").is_err());
    assert!(Handle::parse("p@1.0.0::").is_err());
}

#[test]
fn test_initial_state() {
    let sm = McpStateMachine::new();
    assert_eq!(sm.current(), McpState::Uninitialized);
}

#[test]
fn test_valid_transitions() {
    let mut sm = McpStateMachine::new();

    assert!(sm.transition(McpState::Initializing).is_ok());
    assert_eq!(sm.current(), McpState::Initializing);

    assert!(sm.transition(McpState::Ready).is_ok());
    assert_eq!(sm.current(), McpState::Ready);

    assert!(sm.transition(McpState::ShuttingDown).is_ok());
    assert_eq!(sm.current(), McpState::ShuttingDown);
}

#[test]
fn test_invalid_transitions() {
    let mut sm = McpStateMachine::new();

    assert!(sm.transition(McpState::Ready).is_err());

    assert!(sm.transition(McpState::ShuttingDown).is_err());

    sm.transition(McpState::Initializing).unwrap();

    assert!(sm.transition(McpState::Uninitialized).is_err());
}

#[test]
fn test_require_ready() {
    let mut sm = McpStateMachine::new();

    assert!(sm.require_ready().is_err());

    sm.transition(McpState::Initializing).unwrap();
    assert!(sm.require_ready().is_err());

    sm.transition(McpState::Ready).unwrap();
    assert!(sm.require_ready().is_ok());
}

#[test]
fn test_require_specific_state() {
    let sm = McpStateMachine::new();

    assert!(sm.require(McpState::Uninitialized).is_ok());
    assert!(sm.require(McpState::Ready).is_err());
}

#[test]
fn invalid_transition_leaves_state_unchanged() {
    let mut sm = McpStateMachine::new();
    let err = sm.transition(McpState::ShuttingDown).unwrap_err();
    assert_eq!(
        err,
        McpStateError::InvalidTransition {
            from: McpState::Uninitialized,
            to: McpState::ShuttingDown,
        }
    );
    assert_eq!(sm.current(), McpState::Uninitialized);
}

#[test]
fn error_codes_match_json_rpc_values() {
    assert_eq!(ErrorCode::ParseError.value(), -32700);
    assert_eq!(ErrorCode::InvalidRequest.value(), -32600);
    assert_eq!(ErrorCode::MethodNotFound.value(), -32601);
    assert_eq!(ErrorCode::InvalidParams.value(), -32602);
    assert_eq!(ErrorCode::InternalError.value(), -32603);
    assert_eq!(ErrorCode::ServerNotInitialized.value(), -32002);
    assert_eq!(ErrorCode::RequestCancelled.value(), -32800);
}

#[test]
fn mcp_error_codes_follow_the_catalog() {
    assert_eq!(McpError::MethodNotFound("x".into()).code(), -32601);
    assert_eq!(McpError::InvalidParams("x".into()).code(), -32602);
    assert_eq!(McpError::UnsupportedVersion("1".into()).code(), -32602);
    assert_eq!(McpError::ToolNotFound("t".into()).code(), -32602);
    assert_eq!(McpError::ResourceNotFound("u".into()).code(), -32602);
    assert_eq!(McpError::PromptNotFound("p".into()).code(), -32602);
    assert_eq!(McpError::Internal("i".into()).code(), -32603);
    assert_eq!(McpError::NotImplemented("n".into()).code(), -32601);
    assert_eq!(McpError::Serialization("s".into()).code(), -32700);
    assert_eq!(
        McpError::State(McpStateError::NotReady { actual: McpState::Uninitialized }).code(),
        -32002
    );
    assert_eq!(
        McpError::State(McpStateError::InvalidTransition {
            from: McpState::Uninitialized,
            to: McpState::Ready,
        })
        .code(),
        -32600
    );
}

#[test]
fn mcp_error_to_json_rpc_error_carries_code_and_message() {
    let err = McpError::UnsupportedVersion("9999-01-01".into());
    let rpc = err.to_json_rpc_error();
    assert_eq!(rpc.code, -32602);
    assert_eq!(rpc.message, "Unsupported protocol version: 9999-01-01");
    assert!(rpc.data.is_none());
}

#[test]
fn plexus_error_messages() {
    assert_eq!(
        PlexusError::ActivationNotFound("missing".into()).message(),
        "Activation not found: missing"
    );
    assert_eq!(
        PlexusError::MethodNotFound { activation: "a".into(), method: "m".into() }.message(),
        "Method not found: a.m"
    );
    assert_eq!(
        PlexusError::InvalidParams("bad".into()).message(),
        "Invalid params: bad"
    );
    assert_eq!(
        PlexusError::ExecutionError("boom".into()).message(),
        "Execution error: boom"
    );
    assert_eq!(
        PlexusError::HandleNotSupported("a".into()).message(),
        "Handle resolution not supported by activation: a"
    );
}
