//! Router behavior: registration, hashing, dispatch, stream wrapping, and
//! the MCP front end lifecycle.

use plexus::envelope::{PlexusStreamItem, StreamMetadata};
use plexus::mcp_error::McpError;
use plexus::mcp_router::{McpInterface, McpOutcome};
use plexus::mcp_state::{McpState, McpStateError};
use plexus::router::{
    ActivationFullSchema, HashEvent, MethodSchemaInfo, Plexus, PlexusError, PlexusMethod,
    RouteTarget,
};
use plexus::streaming::{
    done_stream, ensure_terminal, error_stream, error_stream_with_code, extend_hop,
    progress_stream, wrap_stream, wrap_stream_with_done,
};

fn schema(ns: &str, version: &str, methods: &[&str]) -> ActivationFullSchema {
    ActivationFullSchema {
        namespace: ns.to_string(),
        version: version.to_string(),
        description: format!("{} activation", ns),
        methods: methods
            .iter()
            .map(|m| MethodSchemaInfo {
                name: m.to_string(),
                description: String::new(),
                params: None,
                returns: None,
            })
            .collect(),
    }
}

#[test]
fn plexus_methods() {
    let plexus = Plexus::new();
    let methods = plexus.methods();
    assert!(methods.contains(&"call"));
    assert!(methods.contains(&"hash"));
    assert!(methods.contains(&"list_activations"));
    assert!(methods.contains(&"schema"));
}

#[test]
fn plexus_hash_stable() {
    let p1 = Plexus::new();
    let p2 = Plexus::new();
    assert_eq!(p1.compute_hash(), p2.compute_hash());
}

#[test]
fn hash_is_sixteen_lowercase_hex_digits() {
    let h = Plexus::new().compute_hash();
    assert_eq!(h.len(), 16);
    assert!(h.chars().all(|c| c.is_ascii_hexdigit() && !c.is_ascii_uppercase()));
}

#[test]
fn hash_ignores_registration_order() {
    let a = || schema("alpha", "1.0.0", &["one"]);
    let b = || schema("beta", "2.0.0", &["two", "three"]);
    let ab = Plexus::new().register(a()).register(b()).compute_hash();
    let ba = Plexus::new().register(b()).register(a()).compute_hash();
    assert_eq!(ab, ba);
}

#[test]
fn hash_changes_with_the_registration_set() {
    let base = Plexus::new().compute_hash();
    let with_one = Plexus::new()
        .register(schema("alpha", "1.0.0", &["one"]))
        .compute_hash();
    let with_other_version = Plexus::new()
        .register(schema("alpha", "1.0.1", &["one"]))
        .compute_hash();
    assert_ne!(base, with_one);
    assert_ne!(with_one, with_other_version);
}

#[test]
fn register_overwrites_same_namespace() {
    let plexus = Plexus::new()
        .register(schema("alpha", "1.0.0", &["one"]))
        .register(schema("alpha", "2.0.0", &["one", "two"]));
    let infos = plexus.list_activations();
    assert_eq!(infos.len(), 2);
    assert_eq!(infos[1].namespace, "alpha");
    assert_eq!(infos[1].version, "2.0.0");
    assert_eq!(infos[1].methods, vec!["one", "two"]);
}

#[test]
fn list_methods_is_sorted_and_complete() {
    let plexus = Plexus::new().register(schema("health", "1.0.0", &["check"]));
    let methods = plexus.list_methods();
    let mut expected = vec![
        "health.check".to_string(),
        "plexus.call".to_string(),
        "plexus.hash".to_string(),
        "plexus.list_activations".to_string(),
        "plexus.schema".to_string(),
    ];
    expected.sort();
    assert_eq!(methods, expected);
}

#[test]
fn route_to_registered_activation() {
    let plexus = Plexus::new().register(schema("health", "1.0.0", &["check"]));
    match plexus.route_target("health.check").unwrap() {
        RouteTarget::Activation { namespace, method } => {
            assert_eq!(namespace, "health");
            assert_eq!(method, "check");
        }
        other => panic!("expected activation target, got {:?}", other),
    }
}

#[test]
fn route_to_own_methods() {
    let plexus = Plexus::new();
    match plexus.route_target("plexus.hash").unwrap() {
        RouteTarget::PlexusOwn { method } => assert_eq!(method, "hash"),
        other => panic!("expected plexus-own target, got {:?}", other),
    }
}

#[test]
fn route_splits_on_the_first_dot() {
    let plexus = Plexus::new().register(schema("a", "1.0.0", &["b.c"]));
    match plexus.route_target("a.b.c").unwrap() {
        RouteTarget::Activation { namespace, method } => {
            assert_eq!(namespace, "a");
            assert_eq!(method, "b.c");
        }
        other => panic!("expected activation target, got {:?}", other),
    }
}

#[test]
fn unknown_activation_error_stream() {
    // Calling into a namespace that nobody registered: the router reports
    // the failure as a single non-recoverable error envelope, and the
    // transport closes the stream with a terminal item.
    let plexus = Plexus::new();
    let err = plexus.route_target("missing.x").unwrap_err();
    assert_eq!(err, PlexusError::ActivationNotFound("missing".to_string()));
    let hash = plexus.compute_hash();
    let mut items = error_stream(err.message(), vec!["plexus".to_string()], &hash, false);
    ensure_terminal(&mut items, vec!["plexus".to_string()], &hash);
    // The non-recoverable error is itself the terminal item, so no Done
    // follows it and the stream holds exactly one terminal envelope.
    assert_eq!(items.len(), 1);
    match &items[0] {
        PlexusStreamItem::Error { message, recoverable, code, .. } => {
            assert_eq!(message, "Activation not found: missing");
            assert!(!recoverable);
            assert!(code.is_none());
        }
        other => panic!("expected error envelope, got {:?}", other),
    }
    assert!(items[0].is_terminal());

    // A recoverable error does not close the stream; the router appends
    // the synthetic Done.
    let mut open_items = error_stream("try again".to_string(), vec!["plexus".to_string()], &hash, true);
    ensure_terminal(&mut open_items, vec!["plexus".to_string()], &hash);
    assert_eq!(open_items.len(), 2);
    assert!(matches!(open_items[1], PlexusStreamItem::Done { .. }));
}

#[test]
fn invalid_method_format_is_rejected() {
    let plexus = Plexus::new();
    match plexus.route_target("nodot") {
        Err(PlexusError::InvalidParams(msg)) => {
            assert_eq!(msg, "Invalid method format: nodot");
        }
        other => panic!("expected invalid params, got {:?}", other),
    }
}

#[test]
fn basic_call_wraps_events_with_provenance() {
    // A registered activation yields one event; the router wraps it with
    // provenance ["plexus", "health"] and closes the stream with Done.
    let plexus = Plexus::new().register(schema("health", "1.0.0", &["check"]));
    let target = plexus.route_target("health.check").unwrap();
    assert!(matches!(target, RouteTarget::Activation { .. }));
    let hash = plexus.compute_hash();
    let events = vec!["{\"status\":\"ok\"}".to_string()];
    let provenance = vec!["plexus".to_string(), "health".to_string()];
    let items = wrap_stream_with_done(events, "health.event", provenance, &hash);
    assert_eq!(items.len(), 2);
    match &items[0] {
        PlexusStreamItem::Data { metadata, content_type, content } => {
            assert_eq!(content_type, "health.event");
            assert_eq!(content, "{\"status\":\"ok\"}");
            assert_eq!(metadata.provenance, vec!["plexus", "health"]);
            assert_eq!(metadata.plexus_hash, hash);
        }
        other => panic!("expected data envelope, got {:?}", other),
    }
    assert!(matches!(items[1], PlexusStreamItem::Done { .. }));
}

#[test]
fn test_wrap_stream() {
    let events = vec!["{\"value\":1}".to_string(), "{\"value\":2}".to_string()];
    let wrapped = wrap_stream(events, "test.event", vec!["test".to_string()], "h");
    assert_eq!(wrapped.len(), 2);
    match &wrapped[0] {
        PlexusStreamItem::Data { content_type, content, metadata } => {
            assert_eq!(content_type, "test.event");
            assert_eq!(content, "{\"value\":1}");
            assert_eq!(metadata.provenance, vec!["test"]);
        }
        other => panic!("Expected Data item, got {:?}", other),
    }
}

#[test]
fn test_wrap_stream_with_done() {
    let events = vec!["{\"value\":1}".to_string()];
    let wrapped = wrap_stream_with_done(events, "test.event", vec!["test".to_string()], "h");
    assert_eq!(wrapped.len(), 2);
    assert!(matches!(wrapped[0], PlexusStreamItem::Data { .. }));
    assert!(matches!(wrapped[1], PlexusStreamItem::Done { .. }));
}

#[test]
fn test_error_stream() {
    let items = error_stream(
        "Something failed".to_string(),
        vec!["test".to_string()],
        "h",
        false,
    );
    assert_eq!(items.len(), 1);
    match &items[0] {
        PlexusStreamItem::Error { message, recoverable, code, .. } => {
            assert_eq!(message, "Something failed");
            assert!(!recoverable);
            assert!(code.is_none());
        }
        other => panic!("Expected Error item, got {:?}", other),
    }
}

#[test]
fn test_error_stream_with_code() {
    let items = error_stream_with_code(
        "Not found".to_string(),
        "NOT_FOUND".to_string(),
        vec!["test".to_string()],
        "h",
        true,
    );
    assert_eq!(items.len(), 1);
    match &items[0] {
        PlexusStreamItem::Error { message, code, recoverable, .. } => {
            assert_eq!(message, "Not found");
            assert_eq!(code.as_deref(), Some("NOT_FOUND"));
            assert!(recoverable);
        }
        other => panic!("Expected Error item, got {:?}", other),
    }
}

#[test]
fn done_and_progress_streams() {
    let done = done_stream(vec!["p".to_string()], "h");
    assert_eq!(done.len(), 1);
    assert!(matches!(done[0], PlexusStreamItem::Done { .. }));

    let progress = progress_stream(
        "Processing...".to_string(),
        Some(50),
        vec!["p".to_string()],
        "h",
    );
    assert_eq!(progress.len(), 1);
    match &progress[0] {
        PlexusStreamItem::Progress { message, percentage, .. } => {
            assert_eq!(message, "Processing...");
            assert_eq!(*percentage, Some(50));
        }
        other => panic!("expected progress envelope, got {:?}", other),
    }
}

#[test]
fn provenance_grows_by_one_per_hop_and_never_shrinks() {
    let metadata = StreamMetadata {
        provenance: vec!["health".to_string()],
        plexus_hash: "h".to_string(),
        timestamp: 0,
    };
    let mut items = vec![PlexusStreamItem::Data {
        metadata,
        content_type: "health.event".to_string(),
        content: "{}".to_string(),
    }];
    extend_hop(&mut items, "plexus");
    match &items[0] {
        PlexusStreamItem::Data { metadata, .. } => {
            assert_eq!(metadata.provenance, vec!["health", "plexus"]);
        }
        other => panic!("expected data envelope, got {:?}", other),
    }
}

#[test]
fn ensure_terminal_appends_done_only_when_needed() {
    let hash = "h".to_string();
    let mut empty: Vec<PlexusStreamItem> = Vec::new();
    ensure_terminal(&mut empty, vec!["plexus".to_string()], &hash);
    assert_eq!(empty.len(), 1);
    assert!(matches!(empty[0], PlexusStreamItem::Done { .. }));

    let mut closed = done_stream(vec!["plexus".to_string()], &hash);
    ensure_terminal(&mut closed, vec!["plexus".to_string()], &hash);
    assert_eq!(closed.len(), 1);
}

#[test]
fn exactly_one_terminal_item_per_subscription() {
    let events = vec!["{}".to_string(), "{}".to_string(), "{}".to_string()];
    let items = wrap_stream_with_done(events, "t.e", vec!["t".to_string()], "h");
    let terminal_count = items.iter().filter(|i| i.is_terminal()).count();
    assert_eq!(terminal_count, 1);
    assert!(items.last().unwrap().is_terminal());
}

#[test]
fn hash_stream_yields_the_current_hash() {
    let plexus = Plexus::new();
    let events = plexus.hash_stream();
    assert_eq!(events.len(), 1);
    let HashEvent::Hash { value } = &events[0];
    assert_eq!(*value, plexus.compute_hash());
}

#[test]
fn plexus_method_descriptions() {
    assert_eq!(
        PlexusMethod::description("call"),
        Some("Route a call to a registered activation")
    );
    assert_eq!(
        PlexusMethod::description("hash"),
        Some("Get plexus configuration hash")
    );
    assert_eq!(PlexusMethod::description("nope"), None);
}

#[test]
fn test_schemas_to_mcp_tools_empty() {
    let schemas: Vec<ActivationFullSchema> = vec![];
    let tools = plexus::mcp_router::schemas_to_mcp_tools(&schemas);
    assert!(tools.is_empty());
}

#[test]
fn test_schemas_to_mcp_tools_basic() {
    let schemas = vec![ActivationFullSchema {
        namespace: "test".to_string(),
        version: "1.0.0".to_string(),
        description: "Test activation".to_string(),
        methods: vec![
            MethodSchemaInfo {
                name: "method1".to_string(),
                description: "First method".to_string(),
                params: None,
                returns: None,
            },
            MethodSchemaInfo {
                name: "method2".to_string(),
                description: "".to_string(),
                params: None,
                returns: None,
            },
        ],
    }];

    let tools = plexus::mcp_router::schemas_to_mcp_tools(&schemas);

    assert_eq!(tools.len(), 2);
    assert_eq!(tools[0].name, "test.method1");
    assert_eq!(tools[0].description, Some("First method".to_string()));
    assert_eq!(tools[1].name, "test.method2");
    assert_eq!(tools[1].description, None);
}

#[test]
fn test_schemas_to_mcp_tools_multiple_activations() {
    let schemas = vec![
        ActivationFullSchema {
            namespace: "alpha".to_string(),
            version: "1.0.0".to_string(),
            description: "".to_string(),
            methods: vec![MethodSchemaInfo {
                name: "one".to_string(),
                description: "".to_string(),
                params: None,
                returns: None,
            }],
        },
        ActivationFullSchema {
            namespace: "beta".to_string(),
            version: "1.0.0".to_string(),
            description: "".to_string(),
            methods: vec![MethodSchemaInfo {
                name: "two".to_string(),
                description: "".to_string(),
                params: None,
                returns: None,
            }],
        },
    ];

    let tools = plexus::mcp_router::schemas_to_mcp_tools(&schemas);

    assert_eq!(tools.len(), 2);
    assert!(tools.iter().any(|t| t.name == "alpha.one"));
    assert!(tools.iter().any(|t| t.name == "beta.two"));
}

#[test]
fn mcp_lifecycle_guard() {
    // tools/list before initialize fails with the server-not-initialized
    // code; after initialize and the initialized notification it succeeds.
    let plexus = Plexus::new().register(schema("health", "1.0.0", &["check"]));
    let mut mcp = McpInterface::new(plexus);
    assert_eq!(mcp.server_info().name, "substrate");

    let params = serde_json::Value::Null;
    let err = mcp.handle("tools/list", &params).unwrap_err();
    assert_eq!(err.code(), -32002);
    assert!(matches!(
        err,
        McpError::State(McpStateError::NotReady { actual: McpState::Uninitialized })
    ));

    let init_params: serde_json::Value =
        serde_json::from_str("{\"protocolVersion\":\"2025-03-26\"}").unwrap();
    match mcp.handle("initialize", &init_params).unwrap() {
        McpOutcome::Initialize(out) => {
            assert_eq!(out.protocol_version, "2025-03-26");
            assert_eq!(out.server_info.name, "substrate");
            assert!(!out.capabilities.tools.as_ref().unwrap().list_changed);
        }
        other => panic!("expected initialize outcome, got {:?}", other),
    }

    match mcp.handle("notifications/initialized", &params).unwrap() {
        McpOutcome::InitializedAck => {}
        other => panic!("expected initialized ack, got {:?}", other),
    }

    match mcp.handle("tools/list", &params).unwrap() {
        McpOutcome::ToolsList(out) => {
            let names: Vec<&str> = out.tools.iter().map(|t| t.name.as_str()).collect();
            assert!(names.contains(&"plexus.call"));
            assert!(names.contains(&"health.check"));
            assert!(out.next_cursor.is_none());
        }
        other => panic!("expected tools list, got {:?}", other),
    }
}

#[test]
fn mcp_rejects_unsupported_protocol_version() {
    let mut mcp = McpInterface::new(Plexus::new());
    let init_params: serde_json::Value =
        serde_json::from_str("{\"protocolVersion\":\"1999-01-01\"}").unwrap();
    let err = mcp.handle("initialize", &init_params).unwrap_err();
    assert_eq!(err.code(), -32602);
    assert_eq!(
        err.message(),
        "Unsupported protocol version: 1999-01-01"
    );
    assert_eq!(mcp.state().current(), McpState::Uninitialized);
}

#[test]
fn test_new_interface() {
    let mcp = McpInterface::new(Plexus::new());
    assert_eq!(mcp.server_info().name, "substrate");
    assert!(!mcp.server_info().version.is_empty());
}

#[test]
fn test_unknown_method() {
    let mut mcp = McpInterface::new(Plexus::new());
    let err = mcp.handle("unknown/method", &serde_json::Value::Null).unwrap_err();
    assert!(matches!(err, McpError::MethodNotFound(_)));
    assert_eq!(err.code(), -32601);
}

#[test]
fn mcp_tools_call_routes_to_activation() {
    let plexus = Plexus::new().register(schema("health", "1.0.0", &["check"]));
    let mut mcp = McpInterface::new(plexus);
    let init: serde_json::Value =
        serde_json::from_str("{\"protocolVersion\":\"2024-11-05\"}").unwrap();
    mcp.handle("initialize", &init).unwrap();
    mcp.handle("notifications/initialized", &serde_json::Value::Null)
        .unwrap();

    let call: serde_json::Value =
        serde_json::from_str("{\"name\":\"health.check\",\"arguments\":{}}").unwrap();
    match mcp.handle("tools/call", &call).unwrap() {
        McpOutcome::ToolCall { target, .. } => match target {
            RouteTarget::Activation { namespace, method } => {
                assert_eq!(namespace, "health");
                assert_eq!(method, "check");
            }
            other => panic!("expected activation target, got {:?}", other),
        },
        other => panic!("expected tool call outcome, got {:?}", other),
    }

    let bad: serde_json::Value =
        serde_json::from_str("{\"name\":\"missing.x\"}").unwrap();
    let err = mcp.handle("tools/call", &bad).unwrap_err();
    assert_eq!(err, McpError::ToolNotFound("missing.x".to_string()));
}
