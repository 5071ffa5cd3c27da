//! Bidirectional channel behavior and the interactive flows built on it.

use plexus::bidir::{
    bidir_error_message, confirm_response, new_request_id, prompt_response, select_response,
    BidirChannel, BidirError, PendingRegistry, SelectOption, StandardRequest, StandardResponse,
};
use plexus::context::PlexusContext;
use plexus::envelope::PlexusStreamItem;
use plexus::interactive::{ConfirmEvent, DeleteEvent, Interactive, WizardEvent};

fn open_channel() -> BidirChannel {
    BidirChannel::new(true, vec!["test".to_string()], "hash".to_string())
}

#[test]
fn test_request_serialization_format() {
    let mut channel = open_channel();
    let req = StandardRequest::Confirm {
        message: "Test confirmation?".to_string(),
        default: Some(true),
    };
    let id = new_request_id();
    let item = channel.begin_request(&req, 50, id.clone()).unwrap();

    match item {
        PlexusStreamItem::Request { request_id, request_data, timeout_ms } => {
            assert_eq!(request_id.len(), 36, "request_id should be UUID format: {}", request_id);
            assert_eq!(timeout_ms, 50);
            let data: serde_json::Value = serde_json::from_str(&request_data).unwrap();
            assert_eq!(data["type"], "confirm");
            assert_eq!(data["message"], "Test confirmation?");
            assert_eq!(data["default"], true);
        }
        other => panic!("Expected Request item, got {:?}", other),
    }
    assert!(channel.is_request_pending(&id));
}

#[test]
fn test_prompt_request_serialization() {
    let mut channel = open_channel();
    let req = StandardRequest::Prompt {
        message: "Enter name:".to_string(),
        default: Some("default_value".to_string()),
        placeholder: Some("Type here...".to_string()),
    };
    let item = channel.begin_request(&req, 50, new_request_id()).unwrap();

    if let PlexusStreamItem::Request { request_data, .. } = item {
        let data: serde_json::Value = serde_json::from_str(&request_data).unwrap();
        assert_eq!(data["type"], "prompt");
        assert_eq!(data["message"], "Enter name:");
        assert_eq!(data["default"], "default_value");
        assert_eq!(data["placeholder"], "Type here...");
    } else {
        panic!("Expected Request item");
    }
}

#[test]
fn test_select_request_serialization() {
    let mut channel = open_channel();
    let options = vec![
        SelectOption::new("opt1", "Option 1").with_description("First option"),
        SelectOption::new("opt2", "Option 2"),
    ];
    let req = StandardRequest::Select {
        message: "Choose one:".to_string(),
        options,
        multi_select: true,
    };
    let item = channel.begin_request(&req, 50, new_request_id()).unwrap();

    if let PlexusStreamItem::Request { request_data, .. } = item {
        let data: serde_json::Value = serde_json::from_str(&request_data).unwrap();
        assert_eq!(data["type"], "select");
        assert_eq!(data["message"], "Choose one:");
        assert_eq!(data["multi_select"], true);

        let options = data["options"].as_array().expect("options array");
        assert_eq!(options.len(), 2);
        assert_eq!(options[0]["value"], "opt1");
        assert_eq!(options[0]["label"], "Option 1");
        assert_eq!(options[0]["description"], "First option");
        assert_eq!(options[1]["value"], "opt2");
        assert_eq!(options[1]["label"], "Option 2");
        assert!(options[1].get("description").is_none());
    } else {
        panic!("Expected Request item");
    }
}

#[test]
fn test_direct_channel_request_response_flow() {
    let mut channel = open_channel();
    let id = new_request_id();
    let req = StandardRequest::Confirm { message: "Delete file?".to_string(), default: None };
    channel.begin_request(&req, 100, id.clone()).unwrap();
    assert!(channel.is_request_pending(&id));

    let delivered = channel
        .handle_response(&id, Some(StandardResponse::Confirmed(true)))
        .expect("handle_response should succeed");
    assert_eq!(delivered, StandardResponse::Confirmed(true));
    assert!(!channel.is_request_pending(&id));

    assert_eq!(confirm_response(delivered), Ok(true));
}

#[test]
fn test_prompt_request_response_flow() {
    let mut channel = open_channel();
    let id = new_request_id();
    let req = StandardRequest::Prompt {
        message: "Enter name:".to_string(),
        default: None,
        placeholder: None,
    };
    channel.begin_request(&req, 100, id.clone()).unwrap();
    let delivered = channel
        .handle_response(&id, Some(StandardResponse::Text("John Doe".to_string())))
        .unwrap();
    assert_eq!(prompt_response(delivered).unwrap(), "John Doe");
}

#[test]
fn test_select_request_response_flow() {
    let mut channel = open_channel();
    let id = new_request_id();
    let options = vec![
        SelectOption::new("dev", "Development"),
        SelectOption::new("prod", "Production"),
    ];
    let req = StandardRequest::Select {
        message: "Environment:".to_string(),
        options,
        multi_select: false,
    };
    channel.begin_request(&req, 100, id.clone()).unwrap();
    let delivered = channel
        .handle_response(&id, Some(StandardResponse::Selected(vec!["prod".to_string()])))
        .unwrap();
    assert_eq!(select_response(delivered).unwrap(), vec!["prod".to_string()]);
}

#[test]
fn test_short_timeout() {
    let mut channel = open_channel();
    let id = new_request_id();
    let req = StandardRequest::Prompt {
        message: "Quick?".to_string(),
        default: None,
        placeholder: None,
    };
    channel.begin_request(&req, 10, id.clone()).unwrap();
    let err = channel.expire_request(&id, 10);
    assert!(matches!(err, BidirError::Timeout(10)));
}

#[test]
fn test_cancelled_response_handling() {
    let res = confirm_response(StandardResponse::Cancelled);
    assert!(matches!(res, Err(BidirError::Cancelled)));
}

#[test]
fn test_timeout_handling() {
    let mut channel = open_channel();
    let id = new_request_id();
    let req = StandardRequest::Confirm { message: "Test?".to_string(), default: None };
    channel.begin_request(&req, 100, id.clone()).unwrap();

    let err = channel.expire_request(&id, 100);
    assert!(matches!(err, BidirError::Timeout(100)), "Expected Timeout error, got {:?}", err);
    assert!(!channel.is_request_pending(&id), "Pending registry should be empty afterward");
}

#[test]
fn test_sequential_timeouts_clean_state() {
    let mut channel = open_channel();
    let first = new_request_id();
    let req = StandardRequest::Confirm { message: "First?".to_string(), default: None };
    channel.begin_request(&req, 10, first.clone()).unwrap();
    channel.expire_request(&first, 10);

    let second = new_request_id();
    let req = StandardRequest::Confirm { message: "Second?".to_string(), default: None };
    channel.begin_request(&req, 10, second.clone()).unwrap();
    let err = channel.expire_request(&second, 10);
    assert!(matches!(err, BidirError::Timeout(10)));
    assert!(!channel.is_request_pending(&first));
    assert!(!channel.is_request_pending(&second));
}

#[test]
fn test_not_supported_error() {
    let mut channel = BidirChannel::new(false, vec![], "hash".to_string());
    let req = StandardRequest::Confirm { message: "Test?".to_string(), default: None };
    let result = channel.begin_request(&req, 100, new_request_id());
    assert!(matches!(result, Err(BidirError::NotSupported)), "Expected NotSupported");
}

#[test]
fn test_is_bidirectional_flag() {
    let enabled = BidirChannel::new(true, vec![], "hash".to_string());
    assert!(enabled.is_bidirectional());

    let disabled = BidirChannel::new(false, vec![], "hash".to_string());
    assert!(!disabled.is_bidirectional());
}

#[test]
fn test_type_mismatch_on_confirm() {
    let result = confirm_response(StandardResponse::Text("wrong".to_string()));
    assert!(
        matches!(result, Err(BidirError::TypeMismatch { .. })),
        "Expected TypeMismatch, got {:?}",
        result
    );
}

#[test]
fn test_type_mismatch_on_prompt() {
    let result = prompt_response(StandardResponse::Confirmed(true));
    assert!(matches!(result, Err(BidirError::TypeMismatch { .. })));
}

#[test]
fn select_response_reads_the_values() {
    let result = select_response(StandardResponse::Selected(vec!["prod".to_string()]));
    assert_eq!(result, Ok(vec!["prod".to_string()]));
}

#[test]
fn test_malformed_response_handling() {
    let mut channel = open_channel();
    let id = new_request_id();
    let req = StandardRequest::Confirm { message: "Test?".to_string(), default: None };
    channel.begin_request(&req, 100, id.clone()).unwrap();

    // An undecodable payload removes the entry and reports the mismatch.
    let result = channel.handle_response(&id, None);
    assert!(matches!(result, Err(BidirError::TypeMismatch { .. })));
    assert!(!channel.is_request_pending(&id));
}

#[test]
fn test_wrong_request_id() {
    let mut channel = open_channel();
    let id = new_request_id();
    let req = StandardRequest::Confirm { message: "Test?".to_string(), default: None };
    channel.begin_request(&req, 100, id).unwrap();

    let result =
        channel.handle_response("wrong-id-12345", Some(StandardResponse::Confirmed(true)));
    assert!(
        matches!(result, Err(BidirError::UnknownRequest)),
        "Expected UnknownRequest for wrong ID"
    );
}

#[test]
fn test_global_registry_unknown_request() {
    let mut registry = PendingRegistry::new();
    assert!(!registry.is_request_pending("nonexistent-id"));
    assert!(!registry.remove("nonexistent-id"), "Should report UnknownRequest for unknown ID");
}

#[test]
fn test_global_registry_request_response() {
    let mut registry = PendingRegistry::new();
    let id = new_request_id();
    registry.insert(id.clone());
    assert!(registry.is_request_pending(&id), "Request should be pending in global registry");
    assert!(registry.remove(&id));
    assert!(!registry.is_request_pending(&id), "Request should be removed after response");
}

#[test]
fn test_channel_metadata() {
    let channel = BidirChannel::new(
        true,
        vec![
            "substrate".to_string(),
            "interactive".to_string(),
            "wizard".to_string(),
        ],
        "abc123hash".to_string(),
    );
    assert_eq!(channel.provenance(), &["substrate", "interactive", "wizard"]);
    assert_eq!(channel.plexus_hash(), "abc123hash");
}

#[test]
fn bidir_error_messages() {
    assert_eq!(
        bidir_error_message(&BidirError::Timeout(100)),
        "Request timed out after 100 ms"
    );
    assert_eq!(
        bidir_error_message(&BidirError::Transport("closed".to_string())),
        "Transport error: closed"
    );
    assert_eq!(bidir_error_message(&BidirError::UnknownRequest), "Unknown request id");
}

#[test]
fn test_wizard_with_auto_responses() {
    // Answer every request the way an agreeable client would and walk the
    // wizard to completion.
    let wizard = Interactive::new();
    let (events, request) = wizard.wizard_start();
    assert!(matches!(events[0], WizardEvent::Started));
    assert!(matches!(request, StandardRequest::Prompt { .. }));

    let (events, request) = wizard.wizard_on_name(Ok("my-project".to_string()));
    assert!(
        matches!(&events[0], WizardEvent::NameCollected { name } if name == "my-project")
    );
    let options = match request.unwrap() {
        StandardRequest::Select { options, .. } => options,
        other => panic!("expected select request, got {:?}", other),
    };
    let first_value = options[0].value.clone();

    let (events, request) =
        wizard.wizard_on_template("my-project", Ok(vec![first_value.clone()]));
    assert!(
        matches!(&events[0], WizardEvent::TemplateSelected { template } if *template == first_value)
    );
    assert!(matches!(request, Some(StandardRequest::Confirm { .. })));

    let events =
        wizard.wizard_on_confirm("my-project".to_string(), first_value, Ok(true));
    assert!(events.iter().any(|e| matches!(e, WizardEvent::Created { .. })));
    assert!(matches!(events.last(), Some(WizardEvent::Done)));
}

#[test]
fn test_wizard_cancelled() {
    let wizard = Interactive::new();
    let (events, _) = wizard.wizard_on_name(Err(BidirError::Cancelled));
    assert!(matches!(events.last(), Some(WizardEvent::Cancelled)));
}

#[test]
fn test_delete_confirmed() {
    let interactive = Interactive::new();
    let paths = vec!["file1.txt".to_string(), "file2.txt".to_string()];
    let (events, request) = interactive.delete_start(&paths);
    assert!(events.is_empty());
    assert!(matches!(request, Some(StandardRequest::Confirm { .. })));

    let events = interactive.delete_on_confirm(paths, Ok(true));
    assert!(events.iter().any(|e| matches!(e, DeleteEvent::Deleted { path } if path == "file1.txt")));
    assert!(events.iter().any(|e| matches!(e, DeleteEvent::Deleted { path } if path == "file2.txt")));
    assert!(matches!(events.last(), Some(DeleteEvent::Done)));
}

#[test]
fn test_delete_declined() {
    let interactive = Interactive::new();
    let paths = vec!["file.txt".to_string()];
    let events = interactive.delete_on_confirm(paths, Ok(false));
    assert!(matches!(events.last(), Some(DeleteEvent::Cancelled)));
    assert!(!events.iter().any(|e| matches!(e, DeleteEvent::Deleted { .. })));
}

#[test]
fn test_confirm_yes() {
    let interactive = Interactive::new();
    assert!(matches!(interactive.confirm_outcome(Ok(true)), ConfirmEvent::Confirmed));
}

#[test]
fn test_confirm_no() {
    let interactive = Interactive::new();
    assert!(matches!(interactive.confirm_outcome(Ok(false)), ConfirmEvent::Declined));
}

#[test]
fn wizard_rejects_empty_name() {
    let wizard = Interactive::new();
    let (events, request) = wizard.wizard_on_name(Ok(String::new()));
    assert!(
        matches!(&events[0], WizardEvent::Error { message } if message == "Name cannot be empty")
    );
    assert!(request.is_none());
}

#[test]
fn context_initializes_once() {
    let mut ctx = PlexusContext::new();
    assert_eq!(ctx.hash(), "");
    ctx.init("abc".to_string());
    assert_eq!(ctx.hash(), "abc");
    ctx.init("other".to_string());
    assert_eq!(ctx.hash(), "abc");
}

#[test]
fn request_ids_are_uuid_shaped() {
    let a = new_request_id();
    let b = new_request_id();
    assert_eq!(a.len(), 36);
    assert_eq!(b.len(), 36);
    assert_ne!(a, b);
}
